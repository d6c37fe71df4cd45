use mokabench::decimal::{parse_unsigned, push_decimal};

#[test]
fn numerals_are_written_without_padding() {
    for (n, text) in [(0u64, "0"), (7, "7"), (10, "10"), (99, "99"), (100, "100"), (u64::MAX, "18446744073709551615")] {
        let mut out = String::new();
        push_decimal(&mut out, n);
        assert_eq!(out, text);
    }
}

#[test]
fn numerals_are_appended_to_what_is_there() {
    let mut out = String::from("n=");
    push_decimal(&mut out, 305);
    assert_eq!(out, "n=305");
}

#[test]
fn a_token_is_read_within_its_bounds() {
    let bytes = b"12 345 6";
    assert_eq!(parse_unsigned(bytes, 0, 2), Some(12));
    assert_eq!(parse_unsigned(bytes, 3, 6), Some(345));
    assert_eq!(parse_unsigned(bytes, 3, 5), Some(34));
    assert_eq!(parse_unsigned(bytes, 0, 3), None);
    assert_eq!(parse_unsigned(bytes, 2, 2), None);
}

#[test]
fn a_numeral_that_does_not_fit_is_not_read() {
    let text = format!("{}", usize::MAX);
    assert_eq!(parse_unsigned(text.as_bytes(), 0, text.len()), Some(usize::MAX));
    let text = format!("{}0", usize::MAX);
    assert_eq!(parse_unsigned(text.as_bytes(), 0, text.len()), None);
    let text = "18446744073709551616";
    assert_eq!(parse_unsigned(text.as_bytes(), 0, text.len()), None);
}
