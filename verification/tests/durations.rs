use herobot::text::{parse_i64, parse_u64, u64_text};
use herobot::util::{clamp_desc, clamp_field, clamp_reason, field_pieces, fmt_duration, parse_duration};

fn chars(s: &str) -> Vec<char> {
    s.chars().collect()
}

#[test]
fn parse_duration_accepts_documented_forms() {
    assert_eq!(parse_duration("1d12h"), Some(129_600));
    assert_eq!(parse_duration("90m"), Some(5_400));
    assert_eq!(parse_duration("45s"), Some(45));
    assert_eq!(parse_duration("2w"), Some(1_209_600));
    assert_eq!(parse_duration("30m"), Some(1_800));
    assert_eq!(parse_duration("7d"), Some(604_800));
}

#[test]
fn parse_duration_bare_number_is_minutes() {
    assert_eq!(parse_duration("30"), Some(1_800));
    assert_eq!(parse_duration("+5"), Some(300));
    assert_eq!(parse_duration("1"), Some(60));
}

#[test]
fn parse_duration_rejects_trailing_number() {
    assert_eq!(parse_duration("1h30"), None);
}

#[test]
fn parse_duration_rejects_empty_zero_and_negative() {
    assert_eq!(parse_duration(""), None);
    assert_eq!(parse_duration("   "), None);
    assert_eq!(parse_duration("0"), None);
    assert_eq!(parse_duration("0h"), None);
    assert_eq!(parse_duration("-5"), None);
    assert_eq!(parse_duration("-5m"), None);
}

#[test]
fn parse_duration_rejects_unknown_units_and_missing_numbers() {
    assert_eq!(parse_duration("5x"), None);
    assert_eq!(parse_duration("h"), None);
    assert_eq!(parse_duration("1hh"), None);
    assert_eq!(parse_duration("1 h"), None);
}

#[test]
fn parse_duration_ignores_case_and_surrounding_whitespace() {
    assert_eq!(parse_duration("1H"), Some(3_600));
    assert_eq!(parse_duration("1D2h"), Some(93_600));
    assert_eq!(parse_duration("  2h \n"), Some(7_200));
    assert_eq!(parse_duration("\u{3000}1d\u{a0}"), Some(86_400));
}

#[test]
fn parse_duration_rejects_overflow() {
    assert_eq!(parse_duration("9999999999999999999999m"), None);
    assert_eq!(parse_duration("153722867280912931"), None);
    assert_eq!(parse_duration("153722867280912930"), Some(9_223_372_036_854_775_800));
    assert_eq!(parse_duration("15250284452471w"), Some(9_223_372_036_854_460_800));
    assert_eq!(parse_duration("15250284452472w"), None);
    assert_eq!(parse_duration("9223372036854775807s1s"), None);
}

#[test]
fn fmt_duration_writes_largest_units_first() {
    assert_eq!(fmt_duration(129_600), "1d12h");
    assert_eq!(fmt_duration(3_661), "1h1m1s");
    assert_eq!(fmt_duration(60), "1m");
    assert_eq!(fmt_duration(45), "45s");
    assert_eq!(fmt_duration(604_800), "7d");
    assert_eq!(fmt_duration(90_061), "1d1h1m1s");
}

#[test]
fn fmt_duration_of_nothing_is_zero_seconds() {
    assert_eq!(fmt_duration(0), "0s");
    assert_eq!(fmt_duration(-5), "0s");
    assert_eq!(fmt_duration(i64::MIN), "0s");
}

#[test]
fn duration_round_trip_examples() {
    for secs in [1i64, 59, 60, 61, 3_599, 3_600, 86_399, 86_400, 129_600, 1_209_600, 987_654_321, i64::MAX] {
        assert_eq!(parse_duration(&fmt_duration(secs)), Some(secs), "secs = {}", secs);
    }
}

#[test]
fn joined_durations_add_up() {
    for (a, b) in [("1d", "12h"), ("90m", "30s"), ("2w", "1d12h"), ("45S", "1H")] {
        let x = parse_duration(a).unwrap();
        let y = parse_duration(b).unwrap();
        assert_eq!(parse_duration(&format!("{a}{b}")), Some(x + y));
        assert_eq!(parse_duration(&format!("{b}{a}")), Some(x + y));
    }
    assert_eq!(parse_duration("1d12h"), Some(129_600));
}

#[test]
fn clamp_reason_keeps_first_512_characters() {
    let long: String = "é".repeat(600);
    let c = clamp_reason(&long);
    assert_eq!(c.chars().count(), 512);
    assert!(long.starts_with(&c));
    assert_eq!(clamp_reason("short"), "short");
    assert_eq!(clamp_reason(&c), c);
}

#[test]
fn clamp_field_marks_cut_text() {
    let long: String = "x".repeat(2000);
    let c = clamp_field(&long);
    assert_eq!(c.chars().count(), 1024);
    assert!(c.ends_with("..."));
    assert_eq!(&c[..1021], &long[..1021]);
    let exact: String = "y".repeat(1024);
    assert_eq!(clamp_field(&exact), exact);
    assert_eq!(clamp_field(&c), c);
}

#[test]
fn clamp_desc_marks_cut_text() {
    let long: String = "z".repeat(5000);
    let c = clamp_desc(&long);
    assert_eq!(c.chars().count(), 4096);
    assert!(c.ends_with("..."));
    assert_eq!(clamp_desc("abc"), "abc");
}

#[test]
fn integers_read_as_str_parse_does() {
    assert_eq!(parse_u64(&chars("42")), Some(42));
    assert_eq!(parse_u64(&chars("+42")), Some(42));
    assert_eq!(parse_u64(&chars("-42")), None);
    assert_eq!(parse_u64(&chars("")), None);
    assert_eq!(parse_u64(&chars("+")), None);
    assert_eq!(parse_u64(&chars(" 1")), None);
    assert_eq!(parse_u64(&chars("18446744073709551615")), Some(u64::MAX));
    assert_eq!(parse_u64(&chars("18446744073709551616")), None);
    assert_eq!(parse_i64(&chars("-9223372036854775808")), Some(i64::MIN));
    assert_eq!(parse_i64(&chars("9223372036854775808")), None);
    assert_eq!(parse_i64(&chars("-7")), Some(-7));
    for s in ["0", "7", "+3", "-3", "x", "99999999999999999999"] {
        assert_eq!(parse_i64(&chars(s)), s.parse::<i64>().ok(), "{}", s);
        assert_eq!(parse_u64(&chars(s)), s.parse::<u64>().ok(), "{}", s);
    }
}

#[test]
fn decimal_text_matches_display() {
    for n in [0u64, 9, 10, 1234567890, u64::MAX] {
        assert_eq!(u64_text(n), n.to_string());
    }
}

#[test]
fn long_texts_are_cut_into_field_pieces() {
    assert!(field_pieces("").is_empty());
    assert_eq!(field_pieces("abc"), vec!["abc".to_string()]);
    let long: String = "é".repeat(2500);
    let pieces = field_pieces(&long);
    assert_eq!(pieces.len(), 3);
    assert_eq!(pieces[0].chars().count(), 1024);
    assert_eq!(pieces[1].chars().count(), 1024);
    assert_eq!(pieces[2].chars().count(), 452);
    assert_eq!(pieces.concat(), long);
    assert_eq!(field_pieces(&"x".repeat(1024)).len(), 1);
}
