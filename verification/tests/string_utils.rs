use mimicri::strings::{
    escape_string, format_timestamp, is_url, limit_string_length, parse_timestamp, str_eq,
    try_parse_i64, u64_digits,
};

#[test]
fn strings_escaping_string() {
    let bad_string = "I \\ have * a _ very ~ bad ` string | here >".to_string();
    let escaped_string = escape_string(&bad_string);

    assert_eq!(
        escaped_string,
        "I \\\\ have \\* a \\_ very \\~ bad \\` string \\| here \\>"
    );
}

#[test]
fn strings_string_exact() {
    let long_string = "I want to die now".to_string();
    let cut_string = limit_string_length(&long_string, 17);

    assert_eq!(cut_string, "I want to die now");
}

#[test]
fn strings_string_longer() {
    let long_string = "I want to die now".to_string();
    let cut_string = limit_string_length(&long_string, 14);

    assert_eq!(cut_string, "I want to die…");
}

#[test]
fn strings_string_shorter() {
    let long_string = "I want to die".to_string();
    let cut_string = limit_string_length(&long_string, 17);

    assert_eq!(cut_string, "I want to die");
}

#[test]
fn strings_string_unicode() {
    let long_string = "人生は意味がない".to_string();
    let cut_string = limit_string_length(&long_string, 7);

    assert_eq!(cut_string, "人…");
}

#[test]
fn strings_string_unicode_2() {
    let long_string = "人生は意味がない".to_string();
    let cut_string = limit_string_length(&long_string, 10);

    assert_eq!(cut_string, "人生…");
}

#[test]
fn strings_string_unicode_longer() {
    let long_string = "人生は意味がない".to_string();
    let cut_string = limit_string_length(&long_string, 25);

    assert_eq!(cut_string, "人生は意味がない");
}

#[test]
fn strings_string_one() {
    let long_string = "I want to die".to_string();
    let cut_string = limit_string_length(&long_string, 1);

    assert_eq!(cut_string, "…");
}

#[test]
fn strings_seconds() {
    assert_eq!(format_timestamp(30), "0:30")
}

#[test]
fn strings_minute_whole() {
    assert_eq!(format_timestamp(60), "1:00")
}

#[test]
fn strings_minute_seconds() {
    assert_eq!(format_timestamp(90), "1:30")
}

#[test]
fn strings_minute_seconds_near_minute() {
    assert_eq!(format_timestamp(60 + 59), "1:59")
}

#[test]
fn strings_minute_multiple() {
    assert_eq!(format_timestamp(60 + 60), "2:00")
}

#[test]
fn strings_minute_near_hour() {
    assert_eq!(format_timestamp(60 * 59 + 59), "59:59")
}

#[test]
fn strings_hour() {
    assert_eq!(format_timestamp(60 * 60), "1:00:00")
}

#[test]
fn strings_hour_seconds() {
    assert_eq!(format_timestamp(60 * 60 + 59), "1:00:59")
}

#[test]
fn strings_hour_minutes_seconds() {
    assert_eq!(format_timestamp(60 * 60 + 60 + 59), "1:01:59")
}

#[test]
fn parses_seconds() {
    assert_eq!(parse_timestamp(&"0:30".to_string()), 30);
}

#[test]
fn parses_minutes() {
    assert_eq!(parse_timestamp(&"1:30".to_string()), 90);
}

#[test]
fn parses_hour() {
    assert_eq!(parse_timestamp(&"1:01:30".to_string()), 3690);
}

#[test]
fn parses_bad_string() {
    assert_eq!(parse_timestamp(&"hello".to_string()), 0);
}

#[test]
fn url_detection() {
    assert!(is_url(&"https://www.youtube.com/watch?v=abc".to_string()));
    assert!(!is_url(&"http://www.youtube.com/watch?v=abc".to_string()));
    assert!(!is_url(&"never gonna give you up".to_string()));
    assert!(!is_url(&"https:/".to_string()));
}

#[test]
fn digits_rendering() {
    assert_eq!(u64_digits(0), "0");
    assert_eq!(u64_digits(7), "7");
    assert_eq!(u64_digits(120), "120");
    assert_eq!(u64_digits(18446744073709551615), "18446744073709551615");
}

#[test]
fn signed_number_parsing() {
    assert_eq!(try_parse_i64(&"42".to_string()), Some(42));
    assert_eq!(try_parse_i64(&"-42".to_string()), Some(-42));
    assert_eq!(try_parse_i64(&"+42".to_string()), Some(42));
    assert_eq!(try_parse_i64(&"9223372036854775807".to_string()), Some(i64::MAX));
    assert_eq!(try_parse_i64(&"-9223372036854775808".to_string()), Some(i64::MIN));
    assert_eq!(try_parse_i64(&"9223372036854775808".to_string()), None);
    assert_eq!(try_parse_i64(&"".to_string()), None);
    assert_eq!(try_parse_i64(&"1:30".to_string()), None);
    assert_eq!(try_parse_i64(&"4a".to_string()), None);
}

#[test]
fn character_equality() {
    assert!(str_eq("", ""));
    assert!(str_eq("abc", "abc"));
    assert!(!str_eq("abc", "abd"));
    assert!(!str_eq("abc", "ab"));
}

#[test]
fn escaping_keeps_plain_text() {
    let plain = "nothing to see here".to_string();
    assert_eq!(escape_string(&plain), "nothing to see here");
}

#[test]
fn timestamp_parse_ignores_bad_pieces() {
    // a piece that is no number counts zero, like the standard parser's
    // failure folded to the default
    assert_eq!(parse_timestamp(&"x:30".to_string()), 30);
    assert_eq!(parse_timestamp(&"2:x".to_string()), 120);
}
