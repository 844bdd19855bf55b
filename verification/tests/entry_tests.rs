use entryline::{Entry, EntryField, IntError, ParseEntryError, Version};

#[test]
fn parses_basic_entry() {
    let e = Entry::from_str("2024-01-15 09:30|1.2.3|100:5,10,15").unwrap();
    assert_eq!(e.timestamp.year, 2024);
    assert_eq!(e.timestamp.month, 1);
    assert_eq!(e.timestamp.day, 15);
    assert_eq!(e.timestamp.hour, 9);
    assert_eq!(e.timestamp.minute, 30);
    assert!(e.version == Version::new(1, 2, 3, None));
    assert_eq!(e.max, 100);
    assert_eq!(e.values, vec![5, 10, 15]);
}

#[test]
fn parses_entry_with_version_extension() {
    let e = Entry::from_str("2024-01-15 09:30|1.2.3-beta|100:5,10,15").unwrap();
    assert!(e.version == Version::new(1, 2, 3, Some("beta".to_string())));
}

#[test]
fn pipe_and_colon_separate_equally() {
    let piped = Entry::from_str("2024-01-15 09:30|1.2.3-beta|100:1,2,3").unwrap();
    let colons = Entry::from_str("2024-01-15 09:30:1.2.3-beta:100:1,2,3").unwrap();
    assert_eq!(piped.timestamp, colons.timestamp);
    assert!(piped.version == colons.version);
    assert_eq!(piped.max, colons.max);
    assert_eq!(piped.values, colons.values);
}

#[test]
fn short_version_fails_with_nested_missing_patch() {
    let r = Entry::from_str("2024-01-15 09:30|1.2|100:5");
    match r {
        Err(ParseEntryError::InvalidVersion(cause)) => {
            assert_eq!(cause.message(), "missing segment: patch");
        },
        other => panic!("expected a nested version error, got {:?}", other),
    }
}

#[test]
fn non_numeric_value_token_fails() {
    let r = Entry::from_str("2024-01-15 09:30|1.2.3|100:5,x,15");
    assert_eq!(r.unwrap_err(), ParseEntryError::InvalidInteger(IntError::InvalidDigit));
}

#[test]
fn empty_line_misses_timestamp() {
    let r = Entry::from_str("");
    assert_eq!(r.unwrap_err(), ParseEntryError::MissingField(EntryField::Timestamp));
}

#[test]
fn lone_timestamp_misses_version() {
    let r = Entry::from_str("2024-01-15 09:30");
    assert_eq!(r.unwrap_err(), ParseEntryError::MissingField(EntryField::Version));
}

#[test]
fn missing_max_segment_is_named() {
    let r = Entry::from_str("2024-01-15 09:30|1.2.3");
    assert_eq!(r.unwrap_err(), ParseEntryError::MissingField(EntryField::Max));
}

#[test]
fn missing_values_segment_is_named() {
    let r = Entry::from_str("2024-01-15 09:30|1.2.3|100");
    assert_eq!(r.unwrap_err(), ParseEntryError::MissingField(EntryField::Values));
}

#[test]
fn malformed_timestamp_is_reported() {
    let r = Entry::from_str("2024-13-15 09:30|1.2.3|100:5");
    assert!(matches!(r, Err(ParseEntryError::InvalidTimestamp(_))));
}

#[test]
fn timestamp_without_minutes_is_reported() {
    let r = Entry::from_str("2024-01-15|1.2.3|100:5");
    assert!(matches!(r, Err(ParseEntryError::InvalidTimestamp(_))));
}

#[test]
fn negative_max_and_values_parse() {
    let e = Entry::from_str("2024-01-15 09:30|1.2.3|-7:-1,-2147483648,2147483647").unwrap();
    assert_eq!(e.max, -7);
    assert_eq!(e.values, vec![-1, -2147483648, 2147483647]);
}

#[test]
fn value_above_i32_overflows() {
    let r = Entry::from_str("2024-01-15 09:30|1.2.3|100:2147483648");
    assert_eq!(r.unwrap_err(), ParseEntryError::InvalidInteger(IntError::PosOverflow));
}

#[test]
fn value_below_i32_overflows() {
    let r = Entry::from_str("2024-01-15 09:30|1.2.3|100:-2147483649");
    assert_eq!(r.unwrap_err(), ParseEntryError::InvalidInteger(IntError::NegOverflow));
}

#[test]
fn non_numeric_max_fails() {
    let r = Entry::from_str("2024-01-15 09:30|1.2.3|abc:5");
    assert_eq!(r.unwrap_err(), ParseEntryError::InvalidInteger(IntError::InvalidDigit));
}

#[test]
fn empty_values_segment_fails() {
    let r = Entry::from_str("2024-01-15 09:30|1.2.3|100:");
    assert_eq!(r.unwrap_err(), ParseEntryError::InvalidInteger(IntError::Empty));
}

#[test]
fn entries_group_by_structural_version() {
    let a = Entry::from_str("2024-01-15 09:30|01.2.3|100:5").unwrap();
    let b = Entry::from_str("2024-01-16 10:45|1.2.3|200:6").unwrap();
    assert!(a.version == b.version);
}

#[test]
fn entry_error_messages_name_the_field() {
    let r = Entry::from_str("2024-01-15 09:30|1.2.3|100");
    assert_eq!(r.unwrap_err().message(), "missing values");
    let r = Entry::from_str("");
    assert_eq!(r.unwrap_err().message(), "missing timestamp");
}
