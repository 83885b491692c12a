use boinc_app_api::num::{format_i64, is_float_text, parse_i64};

#[test]
fn parse_i64_accepts_signed_decimals() {
    assert_eq!(parse_i64("345"), Some(345));
    assert_eq!(parse_i64("+7"), Some(7));
    assert_eq!(parse_i64("-0"), Some(0));
    assert_eq!(parse_i64("-9223372036854775808"), Some(i64::MIN));
    assert_eq!(parse_i64("9223372036854775807"), Some(i64::MAX));
}

#[test]
fn parse_i64_rejects_what_str_parse_rejects() {
    for s in ["", "-", "+", "9223372036854775808", "-9223372036854775809", "1.0", " 1", "1a", "\u{0661}"] {
        assert_eq!(parse_i64(s), None, "{:?}", s);
        assert!(s.parse::<i64>().is_err());
    }
}

#[test]
fn format_i64_writes_decimal() {
    assert_eq!(format_i64(0), "0");
    assert_eq!(format_i64(345), "345");
    assert_eq!(format_i64(-42), "-42");
    assert_eq!(format_i64(i64::MIN), i64::MIN.to_string());
    assert_eq!(format_i64(i64::MAX), i64::MAX.to_string());
}

#[test]
fn format_then_parse_gives_back_the_number() {
    for n in [0i64, 1, -1, 10, -10, 99, 100, 12345, i64::MIN, i64::MAX, i64::MIN + 1] {
        assert_eq!(parse_i64(&format_i64(n)), Some(n));
    }
}

#[test]
fn float_text_matches_str_parse() {
    let accepted = [
        "0", "9999.0", "0.1", "1.", ".5", "-2.5e10", "+3E-2", "1e5", "inf", "-Infinity", "NaN", "+nan",
    ];
    for s in accepted {
        assert!(is_float_text(s), "{:?}", s);
        assert!(s.parse::<f64>().is_ok(), "{:?}", s);
    }
    let refused = ["", ".", "-", "e5", "1e", "1e+", "1.2.3", " 1", "1 ", "abc", "in", "infinit", "0x10", "1_0"];
    for s in refused {
        assert!(!is_float_text(s), "{:?}", s);
        assert!(s.parse::<f64>().is_err(), "{:?}", s);
    }
}
