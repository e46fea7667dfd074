//! The output path a print job falls back to, and the URL the browser
//! is pointed at.
//!
//! Paths are plain strings with `/` between components. The default
//! output path is the input with the extension of its last component
//! replaced by `pdf`; a name without an extension gains one, and a
//! path without a file name is left as it is.

use vstd::prelude::*;

verus! {

/// The index just after the last `/` of `s`: where the file name
/// starts; 0 when the path has no separator.
pub open spec fn name_start(s: Seq<char>) -> int
    decreases s.len(),
{
    if s.len() == 0 {
        0
    } else if s.last() == '/' {
        s.len() as int
    } else {
        name_start(s.drop_last())
    }
}

/// The index of the dot that starts the extension of the last
/// component: the last dot of the file name, unless it stands first in
/// it; -1 when there is none.
pub open spec fn ext_dot(s: Seq<char>) -> int
    decreases s.len(),
{
    if s.len() == 0 {
        -1
    } else if s.last() == '/' {
        -1
    } else if s.last() == '.' {
        if s.len() - 1 > name_start(s) {
            s.len() - 1
        } else {
            -1
        }
    } else {
        ext_dot(s.drop_last())
    }
}

/// The last component of `s` is one of the relative markers `.` or
/// `..`, which name no file.
pub open spec fn dot_component(s: Seq<char>) -> bool {
    let name = s.skip(name_start(s));
    name == seq!['.'] || name == seq!['.', '.']
}

/// `s` with the extension of its last component replaced by `pdf`: the
/// fallback output path of a print job. A path without a file name —
/// empty, ending in a separator, or ending in `.` or `..` — is left as
/// it is.
pub open spec fn pdf_path(s: Seq<char>) -> Seq<char> {
    if name_start(s) == s.len() || dot_component(s) {
        s
    } else if ext_dot(s) >= 0 {
        s.take(ext_dot(s)) + ".pdf"@
    } else {
        s + ".pdf"@
    }
}

/// Where the file name starts is an index into the path.
proof fn lemma_name_start_bounds(s: Seq<char>)
    ensures
        0 <= name_start(s) <= s.len(),
    decreases s.len(),
{
    if s.len() > 0 && s.last() != '/' {
        lemma_name_start_bounds(s.drop_last());
    }
}

/// The file name starts right after the last separator.
proof fn lemma_name_start(s: Seq<char>, i: int)
    requires
        0 <= i <= s.len(),
        forall|j: int| i <= j < s.len() ==> s[j] != '/',
        i > 0 ==> s[i - 1] == '/',
    ensures
        name_start(s) == i,
    decreases s.len(),
{
    if i == s.len() {
    } else {
        assert(s.last() != '/');
        lemma_name_start(s.drop_last(), i);
    }
}

/// The extension starts at the last dot of the file name.
proof fn lemma_ext_dot_found(s: Seq<char>, e: int)
    requires
        0 <= e < s.len(),
        s[e] == '.',
        e > name_start(s),
        forall|j: int| e < j < s.len() ==> s[j] != '.' && s[j] != '/',
    ensures
        ext_dot(s) == e,
    decreases s.len(),
{
    if e == s.len() - 1 {
    } else {
        assert(s.last() != '/' && s.last() != '.');
        assert(name_start(s.drop_last()) == name_start(s));
        lemma_ext_dot_found(s.drop_last(), e);
    }
}

/// A file name with no dot past its first character has no extension.
proof fn lemma_ext_dot_none(s: Seq<char>)
    requires
        forall|j: int| name_start(s) < j < s.len() ==> s[j] != '.',
        forall|j: int| name_start(s) <= j < s.len() ==> s[j] != '/',
    ensures
        ext_dot(s) == -1,
    decreases s.len(),
{
    if s.len() == 0 {
    } else if s.last() == '/' {
        assert(name_start(s) == s.len());
    } else if s.last() == '.' {
        assert(s.len() - 1 <= name_start(s));
    } else {
        assert(name_start(s.drop_last()) == name_start(s));
        lemma_name_start_bounds(s.drop_last());
        assert forall|j: int|
            name_start(s.drop_last()) < j < s.drop_last().len()
                implies s.drop_last()[j] != '.' by {
            assert(s.drop_last()[j] == s[j]);
            assert(s[j] != '.');
        }
        assert forall|j: int|
            name_start(s.drop_last()) <= j < s.drop_last().len()
                implies s.drop_last()[j] != '/' by {
            assert(s.drop_last()[j] == s[j]);
            assert(s[j] != '/');
        }
        lemma_ext_dot_none(s.drop_last());
    }
}

/// The input path with the extension of its last component replaced by
/// `pdf`, as the output path defaults to.
pub fn default_output_path(input: &str) -> (r: String)
    ensures
        r@ == pdf_path(input@),
{
    let ghost s = input@;
    let n = input.unicode_len();

    // Where the file name starts: right after the last separator.
    let mut ns: usize = n;
    while ns > 0 && input.get_char(ns - 1) != '/'
        invariant
            ns <= n,
            n == s.len(),
            s == input@,
            forall|j: int| ns <= j < n ==> s[j] != '/',
        decreases ns,
    {
        ns -= 1;
    }
    proof {
        lemma_name_start(s, ns as int);
    }

    if ns == n {
        return input.to_owned();
    }

    // A last component of `.` or `..` names no file: leave it alone.
    let nlen = n - ns;
    let dot1 = nlen == 1 && input.get_char(ns) == '.';
    let dot2 = nlen == 2 && input.get_char(ns) == '.' && input.get_char(ns + 1) == '.';
    if dot1 || dot2 {
        proof {
            if dot1 {
                assert(s.skip(ns as int) =~= seq!['.']);
            } else {
                assert(s.skip(ns as int) =~= seq!['.', '.']);
            }
        }
        return input.to_owned();
    }
    proof {
        let name = s.skip(ns as int);
        assert(!dot_component(s)) by {
            assert(name.len() == nlen);
            if name == seq!['.'] {
                assert(name[0] == '.');
                assert(s[ns as int] == '.');
            }
            if name == seq!['.', '.'] {
                assert(name[0] == '.' && name[1] == '.');
                assert(s[ns as int] == '.' && s[ns + 1] == '.');
            }
        }
    }

    // The last dot of the file name, if any.
    let mut d: usize = n;
    while d > ns && input.get_char(d - 1) != '.'
        invariant
            ns <= d <= n,
            n == s.len(),
            s == input@,
            forall|j: int| d <= j < n ==> s[j] != '.',
        decreases d,
    {
        d -= 1;
    }

    if d > ns && d - 1 > ns {
        proof {
            lemma_ext_dot_found(s, d - 1);
        }
        let stem = input.substring_char(0, d - 1);
        proof {
            assert(stem@ =~= s.take(d - 1));
        }
        stem.to_owned().concat(".pdf")
    } else {
        proof {
            lemma_ext_dot_none(s);
        }
        input.to_owned().concat(".pdf")
    }
}

/// The URL under which the browser opens a local file.
pub fn file_url(path: &str) -> (r: String)
    ensures
        r@ == "file://"@ + path@,
{
    let prefix: String = "file://".to_owned();
    prefix.concat(path)
}

} // verus!
