use mimicri::strings::{description_timestamps, is_timestamp, parse_description_timestamps};

#[test]
fn strings_single_line() {
    let timestamps = parse_description_timestamps("3:23 My description".to_string());

    assert_eq!(timestamps[0].label, "My description");
    assert_eq!(timestamps[0].timestamp, "3:23");
    assert_eq!(timestamps[0].seconds, 3 * 60 + 23);
}

#[test]
fn strings_mid_line() {
    let timestamps =
        parse_description_timestamps("Description in front 5:55 Description behind".to_string());

    assert_eq!(timestamps[0].label, "Description in front Description behind");
    assert_eq!(timestamps[0].timestamp, "5:55");
    assert_eq!(timestamps[0].seconds, 5 * 60 + 55);
}

#[test]
fn strings_multi_line() {
    let timestamps =
        parse_description_timestamps("3:23 My description\n1:06:34 Other desc".to_string());

    assert_eq!(timestamps[0].label, "My description");
    assert_eq!(timestamps[0].timestamp, "3:23");
    assert_eq!(timestamps[0].seconds, 3 * 60 + 23);

    assert_eq!(timestamps[1].label, "Other desc");
    assert_eq!(timestamps[1].timestamp, "1:06:34");
    assert_eq!(timestamps[1].seconds, 1 * 3600 + 6 * 60 + 34);
}

#[test]
fn strings_empty() {
    let timestamps = parse_description_timestamps("".to_string());

    assert_eq!(timestamps.len(), 0);
}

#[test]
fn strings_no_timestamps() {
    let timestamps = parse_description_timestamps("Hi there\n23 susser\nimposter".to_string());

    assert_eq!(timestamps.len(), 0);
}

#[test]
fn metadata_single_line() {
    let timestamps = parse_description_timestamps("3:23 My description".to_string());

    assert_eq!(timestamps[0].label, "My description");
    assert_eq!(timestamps[0].timestamp, "3:23");
    assert_eq!(timestamps[0].seconds, 3 * 60 + 23);
}

#[test]
fn metadata_multi_line() {
    let timestamps =
        parse_description_timestamps("3:23 My description\n1:06:34 Other desc".to_string());

    assert_eq!(timestamps[0].label, "My description");
    assert_eq!(timestamps[0].timestamp, "3:23");
    assert_eq!(timestamps[0].seconds, 3 * 60 + 23);

    assert_eq!(timestamps[1].label, "Other desc");
    assert_eq!(timestamps[1].timestamp, "1:06:34");
    assert_eq!(timestamps[1].seconds, 1 * 3600 + 6 * 60 + 34);
}

#[test]
fn metadata_empty() {
    let timestamps = parse_description_timestamps("".to_string());

    assert_eq!(timestamps.len(), 0);
}

#[test]
fn metadata_no_timestamps() {
    let timestamps = parse_description_timestamps("Hi there\n23 susser\nimposter".to_string());

    assert_eq!(timestamps.len(), 0);
}

#[test]
fn timestamp_shape_detection() {
    assert!(is_timestamp(&"3:23".to_string()));
    assert!(is_timestamp(&"intro at 1:06:34 maybe".to_string()));
    assert!(!is_timestamp(&"hello".to_string()));
    assert!(!is_timestamp(&"3:2".to_string()));
}

#[test]
fn checked_scan_catches_overflow() {
    // the folded value of this timestamp does not fit a signed 64-bit
    // number, so the checked scan refuses the description
    let description = "9223372036854775807:59 too big".to_string();
    assert!(description_timestamps(description).is_none());

    let fine = description_timestamps("3:23 ok".to_string()).unwrap();
    assert_eq!(fine[0].seconds, 203);
}

#[test]
fn checked_scan_keeps_line_text() {
    let entries = description_timestamps("  intro 0:05  ".to_string()).unwrap();
    assert_eq!(entries[0].string, "  intro 0:05  ");
    assert_eq!(entries[0].timestamp, "0:05");
    assert_eq!(entries[0].label, "intro");
}
