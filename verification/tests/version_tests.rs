use entryline::{IntError, ParseVersionError, Version, VersionField};
use std::collections::hash_map::DefaultHasher;
use std::hash::{Hash, Hasher};

#[test]
fn it_works() {
    assert_eq!(2 + 2, 4);
}

#[test]
fn parses_plain_version() {
    let v = Version::from_str("1.2.3").unwrap();
    assert_eq!(v.major(), 1);
    assert_eq!(v.minor(), 2);
    assert_eq!(v.patch(), 3);
    assert_eq!(*v.extension(), None);
}

#[test]
fn parses_version_with_extension() {
    let v = Version::from_str("1.2.3-beta").unwrap();
    assert_eq!(v.major(), 1);
    assert_eq!(v.minor(), 2);
    assert_eq!(v.patch(), 3);
    assert_eq!(*v.extension(), Some("beta".to_string()));
}

#[test]
fn extension_kept_verbatim_with_delimiters() {
    let v = Version::from_str("1.2.3-beta.1").unwrap();
    assert_eq!(*v.extension(), Some("beta.1".to_string()));
    assert_eq!(v.to_text(), "1.2.3-beta.1");
}

#[test]
fn formats_version_with_extension() {
    let v = Version::new(1, 2, 3, Some("rc1".to_string()));
    assert_eq!(v.to_text(), "1.2.3-rc1");
}

#[test]
fn formats_version_without_extension() {
    let v = Version::new(1, 2, 3, None);
    assert_eq!(v.to_text(), "1.2.3");
}

#[test]
fn round_trip_keeps_version_equal() {
    let v = Version::from_str("7.0.65535-rc.2").unwrap();
    let again = Version::from_str(v.to_text().as_str()).unwrap();
    assert!(v == again);
}

#[test]
fn round_trip_gains_no_spurious_extension() {
    let v = Version::from_str("1.2.3").unwrap();
    assert_eq!(v.to_text(), "1.2.3");
    let again = Version::from_str(v.to_text().as_str()).unwrap();
    assert_eq!(*again.extension(), None);
    assert!(v == again);
}

#[test]
fn textually_different_versions_group_equal() {
    let a = Version::from_str("01.2.3").unwrap();
    let b = Version::from_str("1.2.3").unwrap();
    assert!(a == b);
    let mut ha = DefaultHasher::new();
    a.hash(&mut ha);
    let mut hb = DefaultHasher::new();
    b.hash(&mut hb);
    assert_eq!(ha.finish(), hb.finish());
}

#[test]
fn empty_extension_differs_from_absent() {
    let with_empty = Version::from_str("1.2.3-").unwrap();
    assert_eq!(*with_empty.extension(), Some(String::new()));
    assert_eq!(with_empty.to_text(), "1.2.3-");
    let without = Version::from_str("1.2.3").unwrap();
    assert!(with_empty != without);
}

#[test]
fn two_segments_fail_with_missing_patch() {
    let r = Version::from_str("1.2");
    assert_eq!(r.unwrap_err(), ParseVersionError::MissingField(VersionField::Patch));
}

#[test]
fn one_segment_fails_with_missing_minor() {
    let r = Version::from_str("1");
    assert_eq!(r.unwrap_err(), ParseVersionError::MissingField(VersionField::Minor));
}

#[test]
fn non_numeric_major_fails() {
    let r = Version::from_str("abc");
    assert_eq!(r.unwrap_err(), ParseVersionError::InvalidInteger(IntError::InvalidDigit));
}

#[test]
fn empty_version_fails_with_empty_integer() {
    let r = Version::from_str("");
    assert_eq!(r.unwrap_err(), ParseVersionError::InvalidInteger(IntError::Empty));
}

#[test]
fn major_beyond_sixteen_bits_overflows() {
    let r = Version::from_str("70000.1.2");
    assert_eq!(r.unwrap_err(), ParseVersionError::InvalidInteger(IntError::PosOverflow));
}

#[test]
fn negative_version_field_is_invalid_digit() {
    let r = Version::from_str("1.-2.3");
    assert_eq!(r.unwrap_err(), ParseVersionError::InvalidInteger(IntError::Empty));
}

#[test]
fn version_error_messages_name_the_cause() {
    let missing = Version::from_str("1.2").unwrap_err();
    assert_eq!(missing.message(), "missing segment: patch");
    let invalid = Version::from_str("x.2.3").unwrap_err();
    assert_eq!(invalid.message(), "invalid digit found in string");
}
