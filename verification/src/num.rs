//! Non-negative decimal numerals, read exactly into fixed point.
//!
//! A numeral is a run of decimal digits with at most one dot, such as
//! `"0.4"`, `"12"`, `".5"` or `"3."`. Its value is held in millionths
//! (six fractional digits); further fractional digits are cut off.
//!
//! This grammar is a deliberate narrowing: margins and scales are
//! physical lengths and factors, so spellings a general float parser
//! would also take — signs, exponents, infinities — are rejected, and
//! a whole part above [`MAX_WHOLE`] is rejected rather than rounded.

use vstd::prelude::*;

verus! {

/// Scale of the fixed-point representation: one unit is a millionth.
pub const MICRO: u64 = 1_000_000;

/// Largest whole part whose fixed-point encoding still fits in `u64`,
/// together with any fraction: `MAX_WHOLE * MICRO + (MICRO - 1) <= u64::MAX`.
pub const MAX_WHOLE: u64 = 18_446_744_073_708;

/// A decimal digit.
pub open spec fn is_digit(c: char) -> bool {
    48 <= c as int && c as int <= 57
}

/// The value of one decimal digit.
pub open spec fn digit_val(c: char) -> int {
    c as int - 48
}

/// Every character of `s` is a decimal digit.
pub open spec fn all_digits(s: Seq<char>) -> bool {
    forall|i: int| 0 <= i < s.len() ==> is_digit(#[trigger] s[i])
}

/// The value of a digit string read in base ten; an empty string reads as zero.
pub open spec fn digits_val(s: Seq<char>) -> int
    decreases s.len(),
{
    if s.len() == 0 {
        0
    } else {
        digits_val(s.drop_last()) * 10 + digit_val(s.last())
    }
}

/// Ten to the `n`th power.
pub open spec fn pow10(n: nat) -> int
    decreases n,
{
    if n == 0 {
        1
    } else {
        10 * pow10((n - 1) as nat)
    }
}

/// The characters before the first dot; the whole string when it has no dot.
pub open spec fn before_dot(s: Seq<char>) -> Seq<char>
    decreases s.len(),
{
    if s.len() == 0 {
        Seq::empty()
    } else if s[0] == '.' {
        Seq::empty()
    } else {
        seq![s[0]] + before_dot(s.drop_first())
    }
}

/// The characters after the first dot; empty when the string has no dot.
pub open spec fn after_dot(s: Seq<char>) -> Seq<char>
    decreases s.len(),
{
    if s.len() == 0 {
        Seq::empty()
    } else if s[0] == '.' {
        s.drop_first()
    } else {
        after_dot(s.drop_first())
    }
}

/// How many fractional digits are kept: at most six.
pub open spec fn kept_frac(f: Seq<char>) -> int {
    if f.len() <= 6 {
        f.len() as int
    } else {
        6
    }
}

/// The fraction read in millionths: the first six fractional digits,
/// padded with zeros on the right.
pub open spec fn frac_micros(f: Seq<char>) -> int {
    digits_val(f.take(kept_frac(f))) * pow10((6 - kept_frac(f)) as nat)
}

/// A well-formed numeral whose value fits the fixed-point range:
/// digits with at most one dot, at least one digit in all, and a
/// whole part of at most `MAX_WHOLE`.
pub open spec fn valid_number(s: Seq<char>) -> bool {
    &&& all_digits(before_dot(s))
    &&& all_digits(after_dot(s))
    &&& before_dot(s).len() + after_dot(s).len() >= 1
    &&& digits_val(before_dot(s)) <= MAX_WHOLE
}

/// The value of a numeral in millionths, fraction beyond six digits cut off.
pub open spec fn number_micros(s: Seq<char>) -> int {
    digits_val(before_dot(s)) * (MICRO as int) + frac_micros(after_dot(s))
}

/// A digit string of length `n` reads as a value below ten to the `n`th.
pub proof fn lemma_digits_val_bound(s: Seq<char>)
    requires
        all_digits(s),
    ensures
        digits_val(s) < pow10(s.len()),
    decreases s.len(),
{
    if s.len() > 0 {
        assert(all_digits(s.drop_last()));
        lemma_digits_val_bound(s.drop_last());
        assert(digits_val(s.drop_last()) <= pow10((s.len() - 1) as nat) - 1);
        assert(pow10(s.len()) == 10 * pow10((s.len() - 1) as nat));
    }
}

/// Reading one more digit multiplies the value so far by ten and adds it.
pub proof fn lemma_digits_val_take_succ(s: Seq<char>, i: int)
    requires
        0 <= i < s.len(),
    ensures
        digits_val(s.take(i + 1)) == digits_val(s.take(i)) * 10 + digit_val(s[i]),
{
    assert(s.take(i + 1).drop_last() =~= s.take(i));
    assert(s.take(i + 1).last() == s[i]);
}

/// Ten to any power is positive.
pub proof fn lemma_pow10_pos(n: nat)
    ensures
        pow10(n) >= 1,
    decreases n,
{
    if n > 0 {
        lemma_pow10_pos((n - 1) as nat);
    }
}

/// Powers of ten multiply by adding exponents.
pub proof fn lemma_pow10_add(a: nat, b: nat)
    ensures
        pow10(a + b) == pow10(a) * pow10(b),
    decreases a,
{
    if a == 0 {
    } else {
        lemma_pow10_add((a - 1) as nat, b);
        assert(pow10(a + b) == 10 * pow10((a + b - 1) as nat));
        assert(pow10(a) * pow10(b) == (10 * pow10((a - 1) as nat)) * pow10(b));
        assert((10 * pow10((a - 1) as nat)) * pow10(b) == 10 * (pow10((a - 1) as nat) * pow10(b)))
            by (nonlinear_arith);
    }
}

/// Where the first dot of `s` stands, the string splits into its
/// whole part and its fraction.
pub proof fn lemma_dot_split(s: Seq<char>, i: int)
    requires
        0 <= i <= s.len(),
        forall|j: int| 0 <= j < i ==> s[j] != '.',
        i < s.len() ==> s[i] == '.',
    ensures
        before_dot(s) =~= s.take(i),
        after_dot(s) =~= if i < s.len() {
            s.skip(i + 1)
        } else {
            Seq::empty()
        },
    decreases i,
{
    if i == 0 {
        if s.len() > 0 {
            assert(s[0] == '.');
        }
    } else {
        assert(s[0] != '.');
        lemma_dot_split(s.drop_first(), i - 1);
        assert(before_dot(s) == seq![s[0]] + before_dot(s.drop_first()));
        assert(seq![s[0]] + s.drop_first().take(i - 1) =~= s.take(i));
        if i < s.len() {
            assert(s.drop_first().skip(i) =~= s.skip(i + 1));
        }
    }
}

/// The index of the first dot of `t`, or its length when it has none.
fn first_dot(t: &str) -> (r: usize)
    ensures
        r <= t@.len(),
        forall|j: int| 0 <= j < r ==> t@[j] != '.',
        r < t@.len() ==> t@[r as int] == '.',
{
    let n = t.unicode_len();
    let mut i: usize = 0;
    while i < n
        invariant
            i <= n,
            n == t@.len(),
            forall|j: int| 0 <= j < i ==> t@[j] != '.',
        decreases n - i,
    {
        if t.get_char(i) == '.' {
            return i;
        }
        i += 1;
    }
    i
}

/// The value of one decimal digit, if `c` is one.
fn digit_of(c: char) -> (r: Option<u8>)
    ensures
        match r {
            Some(d) => is_digit(c) && d == digit_val(c),
            None => !is_digit(c),
        },
{
    let u = c as u32;
    if 48 <= u && u <= 57 {
        Some((u - 48) as u8)
    } else {
        None
    }
}

/// Ten to a power of at most six, as a machine word.
fn pow10_small(e: usize) -> (r: u64)
    requires
        e <= 6,
    ensures
        r == pow10(e as nat),
{
    proof {
        reveal_with_fuel(pow10, 8);
    }
    if e == 0 {
        1
    } else if e == 1 {
        10
    } else if e == 2 {
        100
    } else if e == 3 {
        1_000
    } else if e == 4 {
        10_000
    } else if e == 5 {
        100_000
    } else {
        1_000_000
    }
}

/// Read one numeral into millionths.
///
/// Returns `None` exactly when `t` is not a well-formed numeral or its
/// whole part exceeds `MAX_WHOLE`; otherwise the value of `t` in
/// millionths, fractional digits beyond the sixth cut off.
pub fn number_token_micros(t: &str) -> (r: Option<u64>)
    ensures
        r is Some <==> valid_number(t@),
        match r {
            Some(v) => v == number_micros(t@),
            None => true,
        },
{
    let ghost s = t@;
    let n = t.unicode_len();
    let dot = first_dot(t);
    proof {
        lemma_dot_split(s, dot as int);
    }
    let ghost whole_digits = before_dot(s);
    let ghost frac_digits = after_dot(s);

    // The whole part: digits before the dot, folded into a value,
    // with an exact record of whether the bound was passed.
    let mut whole: u64 = 0;
    let mut too_big: bool = false;
    let mut i: usize = 0;
    while i < dot
        invariant
            0 <= i <= dot,
            dot <= n,
            n == s.len(),
            s == t@,
            whole_digits == before_dot(s),
            whole_digits =~= s.take(dot as int),
            forall|j: int| 0 <= j < i ==> is_digit(#[trigger] s[j]),
            !too_big ==> whole == digits_val(s.take(i as int)) && whole <= MAX_WHOLE,
            too_big ==> digits_val(s.take(i as int)) > MAX_WHOLE,
        decreases dot - i,
    {
        let c = t.get_char(i);
        match digit_of(c) {
            None => {
                proof {
                    assert(whole_digits[i as int] == s[i as int]);
                    assert(!all_digits(whole_digits));
                }
                return None;
            },
            Some(d) => {
                proof {
                    lemma_digits_val_take_succ(s, i as int);
                }
                if !too_big {
                    let wide: u128 = (whole as u128) * 10 + (d as u128);
                    if wide > (MAX_WHOLE as u128) {
                        too_big = true;
                    } else {
                        whole = wide as u64;
                    }
                }
                i += 1;
            },
        }
    }
    assert(forall|j: int|
        0 <= j < whole_digits.len() ==> is_digit(#[trigger] whole_digits[j]));
    if too_big {
        return None;
    }

    // The fraction: digits after the dot; only the first six carry value.
    let flen: usize = if dot < n {
        n - dot - 1
    } else {
        0
    };
    proof {
        assert(frac_digits.len() == flen);
    }
    let mut frac: u64 = 0;
    let mut j: usize = 0;
    while j < flen
        invariant
            0 <= j <= flen,
            flen > 0 ==> dot < n,
            n == s.len(),
            s == t@,
            dot <= n,
            flen == frac_digits.len(),
            frac_digits == after_dot(s),
            dot < n ==> frac_digits =~= s.skip(dot + 1),
            forall|k: int| 0 <= k < j ==> is_digit(#[trigger] frac_digits[k]),
            j <= 6 ==> frac == digits_val(frac_digits.take(j as int)),
            j > 6 ==> frac == digits_val(frac_digits.take(6)),
            frac <= 999_999,
        decreases flen - j,
    {
        let c = t.get_char(dot + 1 + j);
        proof {
            assert(frac_digits[j as int] == s[dot + 1 + j]);
        }
        match digit_of(c) {
            None => {
                proof {
                    assert(!all_digits(frac_digits));
                }
                return None;
            },
            Some(d) => {
                if j < 6 {
                    proof {
                        lemma_digits_val_take_succ(frac_digits, j as int);
                        assert(all_digits(frac_digits.take(j as int))) by {
                            assert(forall|k: int|
                                0 <= k < j ==> is_digit(
                                    #[trigger] frac_digits.take(j as int)[k],
                                ));
                        }
                        lemma_digits_val_bound(frac_digits.take(j as int));
                        assert(pow10(5) == 100_000) by {
                            reveal_with_fuel(pow10, 6);
                        }
                        assert(j <= 5);
                        assert(digits_val(frac_digits.take(j as int)) < pow10(j as nat));
                        assert(pow10(j as nat) <= 100_000) by {
                            reveal_with_fuel(pow10, 6);
                        }
                    }
                    frac = frac * 10 + (d as u64);
                }
                j += 1;
            },
        }
    }
    assert(forall|k: int|
        0 <= k < frac_digits.len() ==> is_digit(#[trigger] frac_digits[k]));

    // At least one digit in all.
    if dot == 0 && flen == 0 {
        return None;
    }
    assert(whole_digits.len() + frac_digits.len() >= 1);
    assert(valid_number(s));

    // Assemble the fixed-point value.
    let kept: usize = if flen <= 6 {
        flen
    } else {
        6
    };
    let mult = pow10_small(6 - kept);
    proof {
        assert(kept == kept_frac(frac_digits));
        if flen <= 6 {
            assert(frac == digits_val(frac_digits.take(kept as int)));
        } else {
            assert(frac == digits_val(frac_digits.take(6)));
        }
        assert(all_digits(frac_digits.take(kept as int))) by {
            assert(forall|k: int|
                0 <= k < kept ==> is_digit(#[trigger] frac_digits.take(kept as int)[k]));
        }
        lemma_digits_val_bound(frac_digits.take(kept as int));
        lemma_pow10_pos((6 - kept) as nat);
        lemma_pow10_add(kept as nat, (6 - kept) as nat);
        assert(frac * mult <= (pow10(kept as nat) - 1) * pow10((6 - kept) as nat))
            by (nonlinear_arith)
            requires
                frac < pow10(kept as nat),
                frac >= 0,
                mult == pow10((6 - kept) as nat),
                mult >= 1,
        ;
        assert((pow10(kept as nat) - 1) * pow10((6 - kept) as nat) == pow10(6)
            - pow10((6 - kept) as nat)) by (nonlinear_arith)
            requires
                pow10(kept as nat) * pow10((6 - kept) as nat) == pow10(6),
        ;
        assert(pow10(6) == 1_000_000) by {
            reveal_with_fuel(pow10, 7);
        }
        assert(frac * mult <= 999_999);
    }
    Some(whole * MICRO + frac * mult)
}

} // verus!
