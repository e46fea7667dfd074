//! Named paper formats and their physical dimensions.
//!
//! Names are matched without regard to ASCII case, as in `"a4"` or
//! `"Letter"`. Dimensions are inches, held in millionths.

use vstd::prelude::*;

use crate::Error;

verus! {

/// A named physical sheet format.
#[derive(Debug, Clone, Copy, PartialEq, Eq, Structural)]
pub enum PaperSize {
    /// A0 (84.1cm x 118.9cm)
    A0,
    /// A1 (59.4cm x 84.1cm)
    A1,
    /// A2 (42.0cm x 59.4cm)
    A2,
    /// A3 (29.7cm x 42.0cm)
    A3,
    /// A4 (21.0cm x 29.7cm)
    A4,
    /// A5 (14.8cm x 21.0cm)
    A5,
    /// A6 (10.5cm x 14.8cm)
    A6,
    /// US Letter (8.5in x 11.0in)
    Letter,
    /// Legal (8.5in x 17.0in)
    Legal,
    /// Tabloid (11.0in x 17.0in)
    Tabloid,
}

/// `a` reads as the lower-case letter `b`: either it is `b` itself, or
/// it is the ASCII upper-case form of `b`.
pub open spec fn char_eq_lower(a: char, b: char) -> bool {
    a == b || (65 <= a as int && a as int <= 90 && a as int + 32 == b as int)
}

/// `s` spells `kw` when ASCII case is set aside; `kw` is lower case.
pub open spec fn matches_lower(s: Seq<char>, kw: Seq<char>) -> bool {
    s.len() == kw.len() && forall|i: int|
        0 <= i < s.len() ==> char_eq_lower(#[trigger] s[i], kw[i])
}

/// The paper size a string names, matched without regard to ASCII case.
pub open spec fn paper_of(s: Seq<char>) -> Option<PaperSize> {
    if matches_lower(s, "a0"@) {
        Some(PaperSize::A0)
    } else if matches_lower(s, "a1"@) {
        Some(PaperSize::A1)
    } else if matches_lower(s, "a2"@) {
        Some(PaperSize::A2)
    } else if matches_lower(s, "a3"@) {
        Some(PaperSize::A3)
    } else if matches_lower(s, "a4"@) {
        Some(PaperSize::A4)
    } else if matches_lower(s, "a5"@) {
        Some(PaperSize::A5)
    } else if matches_lower(s, "a6"@) {
        Some(PaperSize::A6)
    } else if matches_lower(s, "letter"@) {
        Some(PaperSize::Letter)
    } else if matches_lower(s, "legal"@) {
        Some(PaperSize::Legal)
    } else if matches_lower(s, "tabloid"@) {
        Some(PaperSize::Tabloid)
    } else {
        None
    }
}

/// Whether `s` spells `kw` when ASCII case is set aside.
fn eq_lower(s: &str, kw: &str) -> (r: bool)
    ensures
        r == matches_lower(s@, kw@),
{
    let n = s.unicode_len();
    if n != kw.unicode_len() {
        return false;
    }
    let mut i: usize = 0;
    while i < n
        invariant
            i <= n,
            n == s@.len(),
            n == kw@.len(),
            forall|j: int| 0 <= j < i ==> char_eq_lower(#[trigger] s@[j], kw@[j]),
        decreases n - i,
    {
        let a = s.get_char(i);
        let b = kw.get_char(i);
        let au = a as u32;
        let bu = b as u32;
        if !(a == b || (65 <= au && au <= 90 && au + 32 == bu)) {
            return false;
        }
        i += 1;
    }
    true
}

impl PaperSize {
    /// Read a paper size from its name, in either case.
    pub fn from_str(s: &str) -> (r: Result<PaperSize, Error>)
        ensures
            r is Ok <==> paper_of(s@) is Some,
            match r {
                Ok(p) => paper_of(s@) == Some(p),
                Err(Error::InvalidPaperSize { size }) => {
                    &&& paper_of(s@) is None
                    &&& size@ == s@
                },
                Err(_) => false,
            },
    {
        if eq_lower(s, "a0") {
            Ok(PaperSize::A0)
        } else if eq_lower(s, "a1") {
            Ok(PaperSize::A1)
        } else if eq_lower(s, "a2") {
            Ok(PaperSize::A2)
        } else if eq_lower(s, "a3") {
            Ok(PaperSize::A3)
        } else if eq_lower(s, "a4") {
            Ok(PaperSize::A4)
        } else if eq_lower(s, "a5") {
            Ok(PaperSize::A5)
        } else if eq_lower(s, "a6") {
            Ok(PaperSize::A6)
        } else if eq_lower(s, "letter") {
            Ok(PaperSize::Letter)
        } else if eq_lower(s, "legal") {
            Ok(PaperSize::Legal)
        } else if eq_lower(s, "tabloid") {
            Ok(PaperSize::Tabloid)
        } else {
            Err(Error::InvalidPaperSize { size: s.to_owned() })
        }
    }

    /// The sheet width in millionths of an inch.
    pub open spec fn spec_width(self) -> u64 {
        match self {
            PaperSize::A0 => 33_100_000,
            PaperSize::A1 => 23_400_000,
            PaperSize::A2 => 16_500_000,
            PaperSize::A3 => 11_700_000,
            PaperSize::A4 => 8_270_000,
            PaperSize::A5 => 5_830_000,
            PaperSize::A6 => 4_130_000,
            PaperSize::Letter => 8_500_000,
            PaperSize::Legal => 8_500_000,
            PaperSize::Tabloid => 11_000_000,
        }
    }

    /// The sheet height in millionths of an inch.
    pub open spec fn spec_height(self) -> u64 {
        match self {
            PaperSize::A0 => 46_800_000,
            PaperSize::A1 => 33_100_000,
            PaperSize::A2 => 23_400_000,
            PaperSize::A3 => 16_500_000,
            PaperSize::A4 => 11_700_000,
            PaperSize::A5 => 8_270_000,
            PaperSize::A6 => 5_830_000,
            PaperSize::Letter => 11_000_000,
            PaperSize::Legal => 17_000_000,
            PaperSize::Tabloid => 17_000_000,
        }
    }

    /// The width, in millionths of an inch.
    pub fn paper_width(&self) -> (r: u64)
        ensures
            r == self.spec_width(),
    {
        match self {
            PaperSize::A0 => 33_100_000,
            PaperSize::A1 => 23_400_000,
            PaperSize::A2 => 16_500_000,
            PaperSize::A3 => 11_700_000,
            PaperSize::A4 => 8_270_000,
            PaperSize::A5 => 5_830_000,
            PaperSize::A6 => 4_130_000,
            PaperSize::Letter => 8_500_000,
            PaperSize::Legal => 8_500_000,
            PaperSize::Tabloid => 11_000_000,
        }
    }

    /// The height, in millionths of an inch.
    pub fn paper_height(&self) -> (r: u64)
        ensures
            r == self.spec_height(),
    {
        match self {
            PaperSize::A0 => 46_800_000,
            PaperSize::A1 => 33_100_000,
            PaperSize::A2 => 23_400_000,
            PaperSize::A3 => 16_500_000,
            PaperSize::A4 => 11_700_000,
            PaperSize::A5 => 8_270_000,
            PaperSize::A6 => 5_830_000,
            PaperSize::Letter => 11_000_000,
            PaperSize::Legal => 17_000_000,
            PaperSize::Tabloid => 17_000_000,
        }
    }
}

} // verus!
