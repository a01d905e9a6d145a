use light_scheduling::decimal::{chars_of, decimal_text, parse_core_id, parse_i32};

fn parse(s: &str) -> Option<i32> {
    parse_i32(&chars_of(s))
}

#[test]
fn core_id_from_cpu_key() {
    assert_eq!(parse_core_id("cpu7"), Some(7));
    assert_eq!(parse_core_id("core_12"), Some(12));
}

#[test]
fn core_id_joins_scattered_digits() {
    assert_eq!(parse_core_id("c1p2u"), Some(12));
    assert_eq!(parse_core_id("007"), Some(7));
}

#[test]
fn core_id_without_digits_is_none() {
    assert_eq!(parse_core_id("cpu"), None);
    assert_eq!(parse_core_id(""), None);
}

#[test]
fn core_id_ignores_signs() {
    assert_eq!(parse_core_id("-3"), Some(3));
}

#[test]
fn core_id_too_large_is_none() {
    assert_eq!(parse_core_id("cpu2147483647"), Some(2147483647));
    assert_eq!(parse_core_id("cpu2147483648"), None);
    assert_eq!(parse_core_id("cpu99999999999999999999"), None);
}

#[test]
fn core_id_skips_non_ascii_digits() {
    assert_eq!(parse_core_id("cpu٣4"), Some(4));
}

#[test]
fn parse_signed_values() {
    assert_eq!(parse("123"), Some(123));
    assert_eq!(parse("+5"), Some(5));
    assert_eq!(parse("-42"), Some(-42));
    assert_eq!(parse("-2147483648"), Some(i32::MIN));
    assert_eq!(parse("2147483647"), Some(i32::MAX));
}

#[test]
fn parse_rejects_malformed_text() {
    assert_eq!(parse(""), None);
    assert_eq!(parse("-"), None);
    assert_eq!(parse("+"), None);
    assert_eq!(parse("12a"), None);
    assert_eq!(parse(" 12"), None);
    assert_eq!(parse("2147483648"), None);
    assert_eq!(parse("-2147483649"), None);
    assert_eq!(parse("self"), None);
}

#[test]
fn decimal_text_matches_to_string() {
    for v in [0, 7, 10, 1800000, -1, -250, i32::MAX, i32::MIN] {
        assert_eq!(decimal_text(v), v.to_string());
    }
}

#[test]
fn chars_of_keeps_every_char() {
    assert_eq!(chars_of("aé1"), vec!['a', 'é', '1']);
}
