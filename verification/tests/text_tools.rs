use upkg::ansi::strip_ansi;
use upkg::numbers::{i64_string, parse_i64_chars, parse_u8_chars, u64_string};
use upkg::util::normalize_duration;

#[test]
fn strip_ansi_removes_color_sequences() {
    assert_eq!(strip_ansi("\x1b[31mred\x1b[0m text"), "red text");
    assert_eq!(strip_ansi("plain"), "plain");
    assert_eq!(strip_ansi(""), "");
}

#[test]
fn strip_ansi_unterminated_sequence_suppresses_rest() {
    assert_eq!(strip_ansi("abc\x1b[31 never closed"), "abc");
}

#[test]
fn strip_ansi_is_idempotent_on_stripped_text() {
    let once = strip_ansi("\x1b[1;32m::\x1b[0m Synchronizing package databases...");
    let twice = strip_ansi(&once);
    assert_eq!(once, twice);
    assert_eq!(once, ":: Synchronizing package databases...");
}

#[test]
fn parse_u8_accepts_plain_and_plus_digits() {
    let chars = |s: &str| s.chars().collect::<Vec<char>>();
    assert_eq!(parse_u8_chars(&chars("57")), Some(57));
    assert_eq!(parse_u8_chars(&chars("+100")), Some(100));
    assert_eq!(parse_u8_chars(&chars("255")), Some(255));
    assert_eq!(parse_u8_chars(&chars("256")), None);
    assert_eq!(parse_u8_chars(&chars("")), None);
    assert_eq!(parse_u8_chars(&chars("+")), None);
    assert_eq!(parse_u8_chars(&chars("5x")), None);
    assert_eq!(parse_u8_chars(&chars("007")), Some(7));
}

#[test]
fn parse_i64_accepts_signs_and_checks_range() {
    let chars = |s: &str| s.chars().collect::<Vec<char>>();
    assert_eq!(parse_i64_chars(&chars("1700000000")), Some(1700000000));
    assert_eq!(parse_i64_chars(&chars("-42")), Some(-42));
    assert_eq!(parse_i64_chars(&chars("+42")), Some(42));
    assert_eq!(
        parse_i64_chars(&chars("9223372036854775807")),
        Some(i64::MAX)
    );
    assert_eq!(parse_i64_chars(&chars("9223372036854775808")), None);
    assert_eq!(
        parse_i64_chars(&chars("-9223372036854775808")),
        Some(i64::MIN)
    );
    assert_eq!(parse_i64_chars(&chars("-9223372036854775809")), None);
    assert_eq!(parse_i64_chars(&chars("12 3")), None);
    assert_eq!(parse_i64_chars(&chars("-")), None);
}

#[test]
fn integer_strings_render_in_decimal() {
    assert_eq!(u64_string(0), "0");
    assert_eq!(u64_string(105), "105");
    assert_eq!(u64_string(u64::MAX), "18446744073709551615");
    assert_eq!(i64_string(-57), "-57");
    assert_eq!(i64_string(i64::MIN), "-9223372036854775808");
}

#[test]
fn normalize_duration_picks_the_unit() {
    assert_eq!(normalize_duration(0), "0 seconds");
    assert_eq!(normalize_duration(1), "1 second");
    assert_eq!(normalize_duration(59), "59 seconds");
    assert_eq!(normalize_duration(60), "1 minute");
    assert_eq!(normalize_duration(3599), "59 minutes");
    assert_eq!(normalize_duration(3600), "1 hour");
    assert_eq!(normalize_duration(7200), "2 hours");
    assert_eq!(normalize_duration(86400), "1 day 0 hours");
    assert_eq!(normalize_duration(90061), "1 day 1 hour");
    assert_eq!(normalize_duration(2 * 86400 + 3 * 3600), "2 days 3 hours");
    assert_eq!(normalize_duration(-5), "-5 seconds");
}
