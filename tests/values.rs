use std::cmp::Ordering;

use gemspec_rs::error::DecodeError;
use gemspec_rs::event::ScalarStyle;
use gemspec_rs::scalar::{coerce, Scalar};
use gemspec_rs::specification::Platform;
use gemspec_rs::version::{Version, VersionSegment};

fn v(s: &str) -> Version {
    Version::from_str(s).unwrap()
}

#[test]
fn version_segments_are_numbers() {
    assert_eq!(
        v("1.2.3").segments(),
        &[VersionSegment::Number(1), VersionSegment::Number(2), VersionSegment::Number(3)]
    );
}

#[test]
fn version_with_text_segment() {
    assert_eq!(
        v("1.0.rc1").segments(),
        &[VersionSegment::Number(1), VersionSegment::Number(0), VersionSegment::Text("rc1".to_string())]
    );
    assert_eq!(v("1.0.rc1").as_str(), "1.0.rc1");
}

#[test]
fn version_segment_beyond_u64_is_text() {
    assert_eq!(
        v("18446744073709551616").segments(),
        &[VersionSegment::Text("18446744073709551616".to_string())]
    );
    assert_eq!(v("18446744073709551615").segments(), &[VersionSegment::Number(u64::MAX)]);
}

#[test]
fn doubled_dot_is_malformed() {
    assert_eq!(Version::from_str("1..2").unwrap_err(), DecodeError::MalformedVersion { text: "1..2".to_string() });
}

#[test]
fn leading_trailing_and_empty_versions_are_malformed() {
    assert!(Version::from_str(".1").is_err());
    assert!(Version::from_str("1.").is_err());
    assert!(Version::from_str("").is_err());
}

#[test]
fn version_order() {
    assert_eq!(v("1.0").compare(&v("1")), Ordering::Equal);
    assert_eq!(v("1.2").compare(&v("1.10")), Ordering::Less);
    assert_eq!(v("2").compare(&v("1.9.9")), Ordering::Greater);
    assert_eq!(v("1").compare(&v("1.a")), Ordering::Less);
    assert_eq!(v("1.b").compare(&v("1.a")), Ordering::Greater);
    assert_eq!(v("1.a").compare(&v("1.0")), Ordering::Greater);
}

#[test]
fn empty_plain_scalar_is_null() {
    assert_eq!(coerce("", ScalarStyle::Plain), Scalar::Null);
    assert_eq!(coerce("~", ScalarStyle::Plain), Scalar::Null);
    assert_eq!(coerce("NULL", ScalarStyle::Plain), Scalar::Null);
    assert_eq!(coerce("Null", ScalarStyle::Plain), Scalar::Null);
    assert_eq!(coerce("nUlL", ScalarStyle::Plain), Scalar::Str("nUlL".to_string()));
}

#[test]
fn booleans_ignore_case() {
    assert_eq!(coerce("true", ScalarStyle::Plain), Scalar::Bool(true));
    assert_eq!(coerce("TrUe", ScalarStyle::Plain), Scalar::Bool(true));
    assert_eq!(coerce("FALSE", ScalarStyle::Plain), Scalar::Bool(false));
}

#[test]
fn integers() {
    assert_eq!(coerce("4", ScalarStyle::Plain), Scalar::Int(4));
    assert_eq!(coerce("-17", ScalarStyle::Plain), Scalar::Int(-17));
    assert_eq!(coerce("+0", ScalarStyle::Plain), Scalar::Int(0));
    assert_eq!(coerce("9223372036854775807", ScalarStyle::Plain), Scalar::Int(i64::MAX));
    assert_eq!(coerce("-9223372036854775808", ScalarStyle::Plain), Scalar::Int(i64::MIN));
}

#[test]
fn out_of_range_and_leading_zero_stay_text() {
    assert_eq!(coerce("9223372036854775808", ScalarStyle::Plain), Scalar::Str("9223372036854775808".to_string()));
    assert_eq!(coerce("007", ScalarStyle::Plain), Scalar::Str("007".to_string()));
    assert_eq!(coerce("-", ScalarStyle::Plain), Scalar::Str("-".to_string()));
    assert_eq!(coerce("3.4.10", ScalarStyle::Plain), Scalar::Str("3.4.10".to_string()));
}

#[test]
fn quoted_scalars_are_text() {
    assert_eq!(coerce("4", ScalarStyle::DoubleQuoted), Scalar::Str("4".to_string()));
    assert_eq!(coerce("", ScalarStyle::SingleQuoted), Scalar::Str(String::new()));
    assert_eq!(coerce("true", ScalarStyle::Literal), Scalar::Str("true".to_string()));
}

#[test]
fn platform_default_is_ruby() {
    assert_eq!(Platform::default().as_str(), "ruby");
    assert_eq!(Platform::new("x86_64-linux").as_str(), "x86_64-linux");
}
