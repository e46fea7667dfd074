//! Page margins, read from a space-separated string of decimal values.
//!
//! One value sets every side; two set the vertical then the horizontal
//! sides; four set top, right, bottom and left in that order. Values
//! are inches, held in millionths; only plain non-negative decimals
//! are accepted (see [`crate::num`]).

use vstd::prelude::*;

use crate::num::{number_micros, number_token_micros, valid_number};
use crate::Error;

verus! {

/// The characters before the first space; the whole string when it has none.
pub open spec fn before_space(s: Seq<char>) -> Seq<char>
    decreases s.len(),
{
    if s.len() == 0 {
        Seq::empty()
    } else if s[0] == ' ' {
        Seq::empty()
    } else {
        seq![s[0]] + before_space(s.drop_first())
    }
}

/// The maximal space-free runs of `s`, in order, empty runs dropped.
pub open spec fn tokens(s: Seq<char>) -> Seq<Seq<char>>
    decreases s.len(),
    via tokens_dec
{
    if s.len() == 0 {
        seq![]
    } else if s[0] == ' ' {
        tokens(s.drop_first())
    } else {
        seq![before_space(s)] + tokens(s.skip(before_space(s).len() as int))
    }
}

/// The space-free prefix is never longer than the string, and is
/// non-empty as soon as the string starts with something else than a space.
proof fn lemma_before_space_len(s: Seq<char>)
    ensures
        before_space(s).len() <= s.len(),
        s.len() > 0 && s[0] != ' ' ==> before_space(s).len() >= 1,
    decreases s.len(),
{
    if s.len() > 0 && s[0] != ' ' {
        lemma_before_space_len(s.drop_first());
    }
}

#[via_fn]
proof fn tokens_dec(s: Seq<char>) {
    lemma_before_space_len(s);
}

/// Up to the first space of `s`, the string is its own prefix.
proof fn lemma_space_scan(s: Seq<char>, i: int)
    requires
        0 <= i <= s.len(),
        forall|j: int| 0 <= j < i ==> s[j] != ' ',
        i < s.len() ==> s[i] == ' ',
    ensures
        before_space(s) =~= s.take(i),
    decreases i,
{
    if i == 0 {
    } else {
        assert(s[0] != ' ');
        lemma_space_scan(s.drop_first(), i - 1);
        assert(seq![s[0]] + s.drop_first().take(i - 1) =~= s.take(i));
    }
}

/// Cut `t` at its spaces, dropping empty pieces.
pub fn split_spaces<'a>(t: &'a str) -> (toks: Vec<&'a str>)
    ensures
        toks.deep_view() =~= tokens(t@),
{
    let n = t.unicode_len();
    let mut toks: Vec<&'a str> = Vec::new();
    let mut i: usize = 0;
    proof {
        assert(t@.skip(0) =~= t@);
        assert(toks.deep_view() =~= Seq::<Seq<char>>::empty());
    }
    while i < n
        invariant
            i <= n,
            n == t@.len(),
            tokens(t@) =~= toks.deep_view() + tokens(t@.skip(i as int)),
        decreases n - i,
    {
        let c = t.get_char(i);
        if c == ' ' {
            proof {
                assert(t@.skip(i as int).drop_first() =~= t@.skip(i as int + 1));
            }
            i += 1;
        } else {
            let start = i;
            let mut k = i;
            while k < n && t.get_char(k) != ' '
                invariant
                    start <= k <= n,
                    n == t@.len(),
                    forall|j: int| start <= j < k ==> t@[j] != ' ',
                decreases n - k,
            {
                k += 1;
            }
            assert(start < k);
            let tok = t.substring_char(start, k);
            proof {
                let rest = t@.skip(start as int);
                assert(forall|j: int| 0 <= j < k - start ==> rest[j] == t@[start + j]);
                lemma_space_scan(rest, (k - start) as int);
                assert(rest.take((k - start) as int) =~= t@.subrange(
                    start as int,
                    k as int,
                ));
                assert(rest.skip((k - start) as int) =~= t@.skip(k as int));
                assert(tokens(rest) == seq![tok@] + tokens(t@.skip(k as int)));
            }
            let ghost prev = toks.deep_view();
            toks.push(tok);
            proof {
                assert(toks.deep_view() =~= prev + seq![tok@]);
            }
            i = k;
        }
    }
    proof {
        assert(t@.skip(n as int) =~= Seq::<char>::empty());
        assert(tokens(t@) =~= toks.deep_view());
    }
    toks
}

/// Margins of a print job, each side in millionths of an inch.
#[derive(Debug, Clone, Copy, PartialEq, Eq, Structural)]
pub enum Margin {
    /// The same margin on every side.
    All(u64),
    /// One margin for top and bottom, another for right and left.
    VerticalHorizontal(u64, u64),
    /// A margin of its own for each side, clockwise from the top.
    TopRightBottomLeft(u64, u64, u64, u64),
}

/// A margin string splits into 1, 2 or 4 pieces, each a well-formed numeral.
pub open spec fn valid_margin(s: Seq<char>) -> bool {
    let ts = tokens(s);
    &&& (ts.len() == 1 || ts.len() == 2 || ts.len() == 4)
    &&& forall|i: int| 0 <= i < ts.len() ==> valid_number(#[trigger] ts[i])
}

/// The margin a valid margin string denotes.
pub open spec fn margin_value(s: Seq<char>) -> Margin {
    let ts = tokens(s);
    if ts.len() == 1 {
        Margin::All(number_micros(ts[0]) as u64)
    } else if ts.len() == 2 {
        Margin::VerticalHorizontal(
            number_micros(ts[0]) as u64,
            number_micros(ts[1]) as u64,
        )
    } else {
        Margin::TopRightBottomLeft(
            number_micros(ts[0]) as u64,
            number_micros(ts[1]) as u64,
            number_micros(ts[2]) as u64,
            number_micros(ts[3]) as u64,
        )
    }
}

impl Margin {
    /// Read a margin from a space-separated string of decimal inches.
    pub fn from_str(s: &str) -> (r: Result<Margin, Error>)
        ensures
            r is Ok <==> valid_margin(s@),
            match r {
                Ok(m) => m == margin_value(s@),
                Err(Error::InvalidMarginDefinition { margin }) => {
                    let ts = tokens(s@);
                    &&& margin@ == s@
                    &&& ts.len() != 1 && ts.len() != 2 && ts.len() != 4
                },
                Err(Error::InvalidMarginValue(value)) => {
                    let ts = tokens(s@);
                    &&& value@ == s@
                    &&& ts.len() == 1 || ts.len() == 2 || ts.len() == 4
                    &&& exists|i: int| 0 <= i < ts.len() && !valid_number(#[trigger] ts[i])
                },
                Err(_) => false,
            },
    {
        let toks = split_spaces(s);
        let count = toks.len();
        if count == 1 {
            match number_token_micros(toks[0]) {
                Some(v) => Ok(Margin::All(v)),
                None => Err(Error::InvalidMarginValue(s.to_owned())),
            }
        } else if count == 2 {
            match (number_token_micros(toks[0]), number_token_micros(toks[1])) {
                (Some(v), Some(h)) => Ok(Margin::VerticalHorizontal(v, h)),
                _ => Err(Error::InvalidMarginValue(s.to_owned())),
            }
        } else if count == 4 {
            match (
                number_token_micros(toks[0]),
                number_token_micros(toks[1]),
                number_token_micros(toks[2]),
                number_token_micros(toks[3]),
            ) {
                (Some(top), Some(right), Some(bottom), Some(left)) => Ok(
                    Margin::TopRightBottomLeft(top, right, bottom, left),
                ),
                _ => Err(Error::InvalidMarginValue(s.to_owned())),
            }
        } else {
            Err(Error::InvalidMarginDefinition { margin: s.to_owned() })
        }
    }

    /// The top margin, in millionths of an inch.
    pub fn margin_top(&self) -> (r: u64)
        ensures
            r == self.spec_top(),
    {
        match self {
            Margin::All(f) => *f,
            Margin::VerticalHorizontal(f, _) => *f,
            Margin::TopRightBottomLeft(f, _, _, _) => *f,
        }
    }

    /// The right margin, in millionths of an inch.
    pub fn margin_right(&self) -> (r: u64)
        ensures
            r == self.spec_right(),
    {
        match self {
            Margin::All(f) => *f,
            Margin::VerticalHorizontal(_, f) => *f,
            Margin::TopRightBottomLeft(_, f, _, _) => *f,
        }
    }

    /// The bottom margin, in millionths of an inch.
    pub fn margin_bottom(&self) -> (r: u64)
        ensures
            r == self.spec_bottom(),
    {
        match self {
            Margin::All(f) => *f,
            Margin::VerticalHorizontal(f, _) => *f,
            Margin::TopRightBottomLeft(_, _, f, _) => *f,
        }
    }

    /// The left margin, in millionths of an inch.
    pub fn margin_left(&self) -> (r: u64)
        ensures
            r == self.spec_left(),
    {
        match self {
            Margin::All(f) => *f,
            Margin::VerticalHorizontal(_, f) => *f,
            Margin::TopRightBottomLeft(_, _, _, f) => *f,
        }
    }

    /// The top margin as the sides resolve: the first value of any form.
    pub open spec fn spec_top(&self) -> u64 {
        match self {
            Margin::All(f) => *f,
            Margin::VerticalHorizontal(f, _) => *f,
            Margin::TopRightBottomLeft(f, _, _, _) => *f,
        }
    }

    /// The right margin as the sides resolve.
    pub open spec fn spec_right(&self) -> u64 {
        match self {
            Margin::All(f) => *f,
            Margin::VerticalHorizontal(_, f) => *f,
            Margin::TopRightBottomLeft(_, f, _, _) => *f,
        }
    }

    /// The bottom margin as the sides resolve.
    pub open spec fn spec_bottom(&self) -> u64 {
        match self {
            Margin::All(f) => *f,
            Margin::VerticalHorizontal(f, _) => *f,
            Margin::TopRightBottomLeft(_, _, f, _) => *f,
        }
    }

    /// The left margin as the sides resolve.
    pub open spec fn spec_left(&self) -> u64 {
        match self {
            Margin::All(f) => *f,
            Margin::VerticalHorizontal(_, f) => *f,
            Margin::TopRightBottomLeft(_, _, _, f) => *f,
        }
    }
}

} // verus!
