//! The command-line options of a print job, and their mapping onto the
//! request shapes of the browser automation layer.
//!
//! The mapping is pure: paths, flags and templates pass through, and
//! paper and margin choices resolve to fixed-point dimensions. Only the
//! reading of a wait duration leans on an outside parser.

use vstd::prelude::*;

use crate::margin::Margin;
use crate::num::is_digit;
use crate::paper::PaperSize;

verus! {

/// One invocation's worth of options, as plain values.
///
/// Lengths are millionths of an inch, the scale is in millionths of
/// the neutral scale, and the wait is in milliseconds.
#[derive(Debug)]
pub struct Options {
    /// Input HTML file.
    pub input: String,
    /// Output file; by default, the input with its extension changed to `pdf`.
    pub output: Option<String>,
    /// Use landscape mode.
    pub landscape: bool,
    /// Allow print background.
    pub background: bool,
    /// Time to wait before printing, in milliseconds.
    pub wait: Option<u64>,
    /// HTML template for the print header.
    pub header: Option<String>,
    /// HTML template for the print footer.
    pub footer: Option<String>,
    /// Paper size.
    pub paper: Option<PaperSize>,
    /// Scale in millionths; a million is the neutral scale.
    pub scale: Option<u64>,
    /// Paper ranges to print, such as `1-5, 8, 11-13`.
    pub range: Option<String>,
    /// Margin in inches, one, two or four values.
    pub margin: Option<Margin>,
    /// Disable the browser sandbox.
    pub disable_sandbox: bool,
}

impl Options {
    /// The input file.
    pub fn input(&self) -> (r: &String)
        ensures
            r == &self.input,
    {
        &self.input
    }

    /// The output file, if one was given.
    pub fn output(&self) -> (r: Option<&String>)
        ensures
            match r {
                Some(o) => self.output == Some(*o),
                None => self.output is None,
            },
    {
        self.output.as_ref()
    }

    /// Whether landscape mode was asked for.
    pub fn landscape(&self) -> (r: bool)
        ensures
            r == self.landscape,
    {
        self.landscape
    }

    /// Whether the print background was asked for.
    pub fn background(&self) -> (r: bool)
        ensures
            r == self.background,
    {
        self.background
    }

    /// The wait before printing, in milliseconds, if one was given.
    pub fn wait(&self) -> (r: Option<u64>)
        ensures
            r == self.wait,
    {
        self.wait
    }

    /// The header template, if one was given.
    pub fn header(&self) -> (r: Option<&String>)
        ensures
            match r {
                Some(h) => self.header == Some(*h),
                None => self.header is None,
            },
    {
        self.header.as_ref()
    }

    /// The footer template, if one was given.
    pub fn footer(&self) -> (r: Option<&String>)
        ensures
            match r {
                Some(f) => self.footer == Some(*f),
                None => self.footer is None,
            },
    {
        self.footer.as_ref()
    }

    /// The paper size, if one was given.
    pub fn paper(&self) -> (r: Option<&PaperSize>)
        ensures
            match r {
                Some(p) => self.paper == Some(*p),
                None => self.paper is None,
            },
    {
        self.paper.as_ref()
    }

    /// The scale in millionths, if one was given.
    pub fn scale(&self) -> (r: Option<u64>)
        ensures
            r == self.scale,
    {
        self.scale
    }

    /// The margin, if one was given.
    pub fn margin(&self) -> (r: Option<&Margin>)
        ensures
            match r {
                Some(m) => self.margin == Some(*m),
                None => self.margin is None,
            },
    {
        self.margin.as_ref()
    }

    /// The page ranges to print, if any were given.
    pub fn range(&self) -> (r: Option<&String>)
        ensures
            match r {
                Some(g) => self.range == Some(*g),
                None => self.range is None,
            },
    {
        self.range.as_ref()
    }

    /// Whether the browser sandbox is to be disabled.
    pub fn disable_sandbox(&self) -> (r: bool)
        ensures
            r == self.disable_sandbox,
    {
        self.disable_sandbox
    }
}

/// The layout parameters of one print-to-PDF request, as plain values.
///
/// Lengths are millionths of an inch and the scale is in millionths,
/// ready to be put on the wire by the unverified rim.
#[derive(Debug)]
pub struct PrintOptions {
    /// Print in landscape orientation.
    pub landscape: Option<bool>,
    /// Show the header and footer templates.
    pub display_header_footer: Option<bool>,
    /// Print background graphics.
    pub print_background: Option<bool>,
    /// Scale of the rendering, in millionths.
    pub scale: Option<u64>,
    /// Paper width in millionths of an inch.
    pub paper_width: Option<u64>,
    /// Paper height in millionths of an inch.
    pub paper_height: Option<u64>,
    /// Top margin in millionths of an inch.
    pub margin_top: Option<u64>,
    /// Bottom margin in millionths of an inch.
    pub margin_bottom: Option<u64>,
    /// Left margin in millionths of an inch.
    pub margin_left: Option<u64>,
    /// Right margin in millionths of an inch.
    pub margin_right: Option<u64>,
    /// Page ranges to print.
    pub page_ranges: Option<String>,
    /// HTML template for the print header.
    pub header_template: Option<String>,
    /// HTML template for the print footer.
    pub footer_template: Option<String>,
}

impl PrintOptions {
    /// Resolve the print-request parameters from the options: flags and
    /// templates pass through, the header and footer are shown as soon
    /// as either is given, and paper and margin resolve to their sides.
    pub fn from_options(opt: &Options) -> (r: PrintOptions)
        ensures
            r.landscape == Some(opt.landscape),
            r.display_header_footer == Some(opt.header is Some || opt.footer is Some),
            r.print_background == Some(opt.background),
            r.scale == opt.scale,
            r.paper_width == match opt.paper {
                Some(p) => Some(p.spec_width()),
                None => None::<u64>,
            },
            r.paper_height == match opt.paper {
                Some(p) => Some(p.spec_height()),
                None => None::<u64>,
            },
            r.margin_top == match opt.margin {
                Some(m) => Some(m.spec_top()),
                None => None::<u64>,
            },
            r.margin_bottom == match opt.margin {
                Some(m) => Some(m.spec_bottom()),
                None => None::<u64>,
            },
            r.margin_left == match opt.margin {
                Some(m) => Some(m.spec_left()),
                None => None::<u64>,
            },
            r.margin_right == match opt.margin {
                Some(m) => Some(m.spec_right()),
                None => None::<u64>,
            },
            r.page_ranges == opt.range,
            r.header_template == opt.header,
            r.footer_template == opt.footer,
    {
        PrintOptions {
            landscape: Some(opt.landscape),
            display_header_footer: Some(opt.header.is_some() || opt.footer.is_some()),
            print_background: Some(opt.background),
            scale: opt.scale,
            paper_width: match &opt.paper {
                Some(p) => Some(p.paper_width()),
                None => None,
            },
            paper_height: match &opt.paper {
                Some(p) => Some(p.paper_height()),
                None => None,
            },
            margin_top: match &opt.margin {
                Some(m) => Some(m.margin_top()),
                None => None,
            },
            margin_bottom: match &opt.margin {
                Some(m) => Some(m.margin_bottom()),
                None => None,
            },
            margin_left: match &opt.margin {
                Some(m) => Some(m.margin_left()),
                None => None,
            },
            margin_right: match &opt.margin {
                Some(m) => Some(m.margin_right()),
                None => None,
            },
            page_ranges: match &opt.range {
                Some(g) => Some(g.clone()),
                None => None,
            },
            header_template: match &opt.header {
                Some(h) => Some(h.clone()),
                None => None,
            },
            footer_template: match &opt.footer {
                Some(f) => Some(f.clone()),
                None => None,
            },
        }
    }
}

/// How long an idle browser is kept before it is shut down, when no
/// wait was asked for: thirty seconds.
pub const DEFAULT_IDLE_TIMEOUT_MS: u64 = 30_000;

/// What the browser is launched with, as plain values.
#[derive(Debug, Clone, Copy, PartialEq, Eq, Structural)]
pub struct LaunchSettings {
    /// Whether the browser sandbox is kept.
    pub sandbox: bool,
    /// How long an idle browser is kept, in milliseconds.
    pub idle_timeout_ms: u64,
}

impl LaunchSettings {
    /// Resolve the launch parameters from the options: the sandbox is
    /// kept unless disabled, and the idle timeout is the wait when one
    /// was given, thirty seconds otherwise.
    pub fn from_options(opt: &Options) -> (r: LaunchSettings)
        ensures
            r.sandbox == !opt.disable_sandbox,
            r.idle_timeout_ms == match opt.wait {
                Some(w) => w,
                None => DEFAULT_IDLE_TIMEOUT_MS,
            },
    {
        LaunchSettings {
            sandbox: !opt.disable_sandbox,
            idle_timeout_ms: match opt.wait {
                Some(w) => w,
                None => DEFAULT_IDLE_TIMEOUT_MS,
            },
        }
    }
}

/// How many decimal digit characters `s` carries.
pub open spec fn digit_count(s: Seq<char>) -> int
    decreases s.len(),
{
    if s.len() == 0 {
        0
    } else {
        digit_count(s.drop_last()) + if is_digit(s.last()) {
            1int
        } else {
            0int
        }
    }
}

/// Counting one more character raises the digit tally by one exactly
/// when that character is a digit.
proof fn lemma_digit_count_take_succ(s: Seq<char>, i: int)
    requires
        0 <= i < s.len(),
    ensures
        digit_count(s.take(i + 1)) == digit_count(s.take(i)) + if is_digit(s[i]) {
            1int
        } else {
            0int
        },
{
    assert(s.take(i + 1).drop_last() =~= s.take(i));
    assert(s.take(i + 1).last() == s[i]);
}

/// Count the decimal digit characters of `s`.
fn count_digits(s: &str) -> (r: usize)
    ensures
        r == digit_count(s@),
{
    let n = s.unicode_len();
    let mut count: usize = 0;
    let mut i: usize = 0;
    while i < n
        invariant
            i <= n,
            n == s@.len(),
            count <= i,
            count == digit_count(s@.take(i as int)),
        decreases n - i,
    {
        let c = s.get_char(i);
        let u = c as u32;
        proof {
            lemma_digit_count_take_succ(s@, i as int);
        }
        if 48 <= u && u <= 57 {
            count += 1;
        }
        i += 1;
    }
    proof {
        assert(s@.take(n as int) =~= s@);
    }
    count
}

/// What `humantime` reads a duration string as, in whole milliseconds,
/// or nothing where it rejects the string.
pub uninterp spec fn wait_millis_of(s: Seq<char>) -> Option<u128>;

/// Relies on `humantime::parse_duration`: the duration named by a string
/// such as `150ms` or `10s`, a function of the characters alone.
///
/// The digit bound keeps the call away from its one panic: that parser
/// only normalizes a nanosecond tally strictly above one billion, so a
/// tally of exactly one billion reaches `Duration::new` unnormalized
/// and panics when the seconds counter stands exactly at the top of
/// `u64`. Every span of the duration grammar begins with a digit, the
/// arithmetic is checked throughout, and the largest unit is the year
/// at 31 557 600 seconds, so eleven digits bound the seconds counter by
/// under 32 million times ten to the eleventh, far below that top.
#[verifier::external_body]
fn parse_duration_millis(s: &str) -> (r: Option<u128>)
    requires
        digit_count(s@) <= 11,
    ensures
        r == wait_millis_of(s@),
{
    humantime::parse_duration(s).ok().map(|d| d.as_millis())
}

/// Read a wait duration such as `150ms` or `10s` as whole milliseconds.
///
/// Strings carrying more than eleven digits are rejected without
/// consulting the outside parser: even read as whole years, eleven
/// digits stay short of the seconds range whose very top would make
/// that parser panic. Durations too long for a machine word are
/// rejected like ill-formed ones.
pub fn parse_wait(s: &str) -> (r: Option<u64>)
    ensures
        r == if digit_count(s@) <= 11 {
            match wait_millis_of(s@) {
                Some(ms) => if ms <= u64::MAX {
                    Some(ms as u64)
                } else {
                    None::<u64>
                },
                None => None::<u64>,
            }
        } else {
            None::<u64>
        },
{
    if count_digits(s) > 11 {
        return None;
    }
    match parse_duration_millis(s) {
        Some(ms) => if ms <= u64::MAX as u128 {
            Some(ms as u64)
        } else {
            None
        },
        None => None,
    }
}

} // verus!
