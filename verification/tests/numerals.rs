use html2pdf::num::number_token_micros;
use html2pdf::{Error, Margin};

#[test]
fn whole_numbers_read_in_millionths() {
    assert_eq!(number_token_micros("0"), Some(0));
    assert_eq!(number_token_micros("1"), Some(1_000_000));
    assert_eq!(number_token_micros("42"), Some(42_000_000));
    assert_eq!(number_token_micros("007"), Some(7_000_000));
}

#[test]
fn fractions_read_in_millionths() {
    assert_eq!(number_token_micros("0.4"), Some(400_000));
    assert_eq!(number_token_micros("0.75"), Some(750_000));
    assert_eq!(number_token_micros("1.5"), Some(1_500_000));
    assert_eq!(number_token_micros("0.000001"), Some(1));
}

#[test]
fn bare_dot_forms_read_like_zero_padding() {
    assert_eq!(number_token_micros(".5"), Some(500_000));
    assert_eq!(number_token_micros("3."), Some(3_000_000));
}

#[test]
fn fraction_beyond_six_digits_is_cut_off() {
    assert_eq!(number_token_micros("0.1234567"), Some(123_456));
    assert_eq!(number_token_micros("0.9999999"), Some(999_999));
}

#[test]
fn malformed_numerals_are_rejected() {
    assert_eq!(number_token_micros(""), None);
    assert_eq!(number_token_micros("."), None);
    assert_eq!(number_token_micros("plop"), None);
    assert_eq!(number_token_micros("1.2.3"), None);
    assert_eq!(number_token_micros("-0.4"), None);
    assert_eq!(number_token_micros("1e3"), None);
    assert_eq!(number_token_micros("0. 4"), None);
}

#[test]
fn the_whole_part_is_bounded() {
    assert_eq!(
        number_token_micros("18446744073708"),
        Some(18_446_744_073_708_000_000)
    );
    assert_eq!(
        number_token_micros("18446744073708.999999"),
        Some(18_446_744_073_708_999_999)
    );
    assert_eq!(number_token_micros("18446744073709"), None);
    assert_eq!(number_token_micros("99999999999999999999"), None);
}

#[test]
fn margin_strings_with_other_counts_are_rejected() {
    assert!(matches!(
        Margin::from_str(""),
        Err(Error::InvalidMarginDefinition { .. })
    ));
    assert!(matches!(
        Margin::from_str("   "),
        Err(Error::InvalidMarginDefinition { .. })
    ));
    assert!(matches!(
        Margin::from_str("0.1 0.2 0.3 0.4 0.5"),
        Err(Error::InvalidMarginDefinition { .. })
    ));
}

#[test]
fn margin_values_may_carry_extra_spaces() {
    assert_eq!(Margin::from_str(" 0.4 ").unwrap(), Margin::All(400_000));
    assert_eq!(
        Margin::from_str("  1  2  ").unwrap(),
        Margin::VerticalHorizontal(1_000_000, 2_000_000)
    );
}

#[test]
fn one_bad_margin_value_rejects_the_whole_string() {
    assert!(matches!(
        Margin::from_str("0.4 plop"),
        Err(Error::InvalidMarginValue(_))
    ));
    assert!(matches!(
        Margin::from_str("0.1 0.2 0.3 plop"),
        Err(Error::InvalidMarginValue(_))
    ));
}
