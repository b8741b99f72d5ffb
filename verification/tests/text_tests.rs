use travel_times::text::{parse_u32, trim_str, u64_to_dec};

#[test]
fn decimal_rendering() {
    assert_eq!(u64_to_dec(0), "0");
    assert_eq!(u64_to_dec(7), "7");
    assert_eq!(u64_to_dec(83), "83");
    assert_eq!(u64_to_dec(10500), "10500");
    assert_eq!(u64_to_dec(u64::MAX), "18446744073709551615");
}

#[test]
fn number_parsing() {
    assert_eq!(parse_u32("0"), Some(0));
    assert_eq!(parse_u32("0023"), Some(23));
    assert_eq!(parse_u32("+15"), Some(15));
    assert_eq!(parse_u32("4294967295"), Some(4294967295));
    assert_eq!(parse_u32("4294967296"), None);
    assert_eq!(parse_u32(""), None);
    assert_eq!(parse_u32("+"), None);
    assert_eq!(parse_u32("1 2"), None);
    assert_eq!(parse_u32("-1"), None);
}

#[test]
fn trimming() {
    assert_eq!(trim_str("  IC 1 "), "IC 1");
    assert_eq!(trim_str(" \t\n\r"), "");
    assert_eq!(trim_str("x"), "x");
    assert_eq!(trim_str(""), "");
}

#[test]
fn trimming_removes_unicode_whitespace() {
    assert_eq!(trim_str("\u{00A0}IC 1\u{3000}"), "IC 1");
    assert_eq!(trim_str("\u{2009}\u{2028}"), "");
}
