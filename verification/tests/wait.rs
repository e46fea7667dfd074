use html2pdf::options::parse_wait;

#[test]
fn wait_durations_read_as_milliseconds() {
    assert_eq!(parse_wait("150ms"), Some(150));
    assert_eq!(parse_wait("10s"), Some(10_000));
    assert_eq!(parse_wait("2m"), Some(120_000));
    assert_eq!(parse_wait("1h 30m"), Some(5_400_000));
    assert_eq!(parse_wait("0"), Some(0));
}

#[test]
fn malformed_waits_are_rejected() {
    assert_eq!(parse_wait("plop"), None);
    assert_eq!(parse_wait(""), None);
    assert_eq!(parse_wait("10"), None);
}

#[test]
fn waits_with_many_digits_are_rejected_without_parsing() {
    assert_eq!(parse_wait("99999999999ms"), Some(99_999_999_999));
    assert_eq!(parse_wait("999999999999ms"), None);
    assert_eq!(parse_wait("0.123456789012s"), None);
    assert_eq!(parse_wait("18446744073709551615s 1000ms"), None);
    assert_eq!(parse_wait("584542046090y 1000ms"), None);
}
