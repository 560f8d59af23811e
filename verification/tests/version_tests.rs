use hdiff_apply::binary_version::BinaryVersion;
use hdiff_apply::error::Error;

#[test]
fn parse_six_char_version_run() {
    // The three-integer run fills the six bytes before the final dash.
    let v = BinaryVersion::parse(b"1.2.30-revision").unwrap();
    assert_eq!(v.major_version, 1);
    assert_eq!(v.minor_version, 2);
    assert_eq!(v.patch_version, 30);
}

#[test]
fn parse_with_surrounding_blob() {
    let v = BinaryVersion::parse(b"header bytes 7.3.65-final").unwrap();
    assert_eq!(v.major_version, 7);
    assert_eq!(v.minor_version, 3);
    assert_eq!(v.patch_version, 65);
}

#[test]
fn parse_two_digit_major() {
    let v = BinaryVersion::parse(b"xx11.2.3-seg").unwrap();
    assert_eq!(v.major_version, 11);
    assert_eq!(v.minor_version, 2);
    assert_eq!(v.patch_version, 3);
}

#[test]
fn parse_plus_prefixed_field() {
    // A leading `+` is accepted by integer parsing, so it may fill the
    // window's slack byte.
    let v = BinaryVersion::parse(b"+1.2.3-seg").unwrap();
    assert_eq!(v.major_version, 1);
    assert_eq!(v.minor_version, 2);
    assert_eq!(v.patch_version, 3);
}

#[test]
fn parse_takes_first_three_fields() {
    // A trailing fourth field inside the window is ignored.
    let v = BinaryVersion::parse(b"1.2.3.-seg").unwrap();
    assert_eq!(v.major_version, 1);
    assert_eq!(v.minor_version, 2);
    assert_eq!(v.patch_version, 3);
}

#[test]
fn parse_version_at_blob_start() {
    // With the dash inside the first six bytes, the window starts at the
    // blob's very beginning.
    let v = BinaryVersion::parse(b"1.2.3-suffix").unwrap();
    assert_eq!(v.major_version, 1);
    assert_eq!(v.minor_version, 2);
    assert_eq!(v.patch_version, 3);
}

#[test]
fn parse_without_dash_fails() {
    let r = BinaryVersion::parse(b"1.2.3 but no delimiter");
    assert!(matches!(r, Err(Error::VersionParse())));
}

#[test]
fn parse_with_too_few_fields_fails() {
    let r = BinaryVersion::parse(b"xx 1.2-segment");
    assert!(matches!(r, Err(Error::VersionParse())));
}

#[test]
fn parse_with_junk_field_fails() {
    // The window byte ahead of a five-character version joins the first
    // field; a non-digit there spoils it.
    let r = BinaryVersion::parse(b"xx x1.2.3-segment");
    assert!(matches!(r, Err(Error::VersionParse())));
}

#[test]
fn parse_empty_input_fails() {
    let r = BinaryVersion::parse(b"");
    assert!(matches!(r, Err(Error::VersionParse())));
}

#[test]
fn parse_window_clips_long_first_field() {
    // Only the six bytes before the final dash are examined: a longer run
    // loses its leading digits.
    let v = BinaryVersion::parse(b"5000000000.1.2-seg").unwrap();
    assert_eq!(v.major_version, 0);
    assert_eq!(v.minor_version, 1);
    assert_eq!(v.patch_version, 2);
}

#[test]
fn to_string_renders_dotted_triple() {
    let v = BinaryVersion { major_version: 1, minor_version: 2, patch_version: 30 };
    assert_eq!(v.to_string(), "1.2.30");
}

#[test]
fn to_string_zero() {
    let v = BinaryVersion { major_version: 0, minor_version: 0, patch_version: 0 };
    assert_eq!(v.to_string(), "0.0.0");
}

#[test]
fn to_string_large() {
    let v = BinaryVersion { major_version: 4294967295, minor_version: 10, patch_version: 101 };
    assert_eq!(v.to_string(), "4294967295.10.101");
}

#[test]
fn default_is_zero() {
    let v = BinaryVersion::default();
    assert_eq!(v.major_version, 0);
    assert_eq!(v.minor_version, 0);
    assert_eq!(v.patch_version, 0);
}

#[test]
fn le_is_lexicographic() {
    let a = BinaryVersion { major_version: 1, minor_version: 9, patch_version: 9 };
    let b = BinaryVersion { major_version: 2, minor_version: 0, patch_version: 0 };
    assert!(a.le(&b));
    assert!(!b.le(&a));
    let c = BinaryVersion { major_version: 1, minor_version: 9, patch_version: 9 };
    assert!(a.le(&c));
    assert!(c.le(&a));
}
