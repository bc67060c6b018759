use stringutils::cstring::CString;
use stringutils::error::decimal_string;
use stringutils::{count_vowels, str_reverse, Error, NulError};

#[test]
fn from_nul_error_produces_conversion_and_displays() {
    let nul_err = CString::new("a\0b").unwrap_err();
    let err = Error::from(nul_err);
    assert!(matches!(err, Error::Conversion(_)));
    let msg = err.message();
    assert!(
        msg.contains("interior NUL byte"),
        "unexpected Display output: {msg}"
    );
}

#[test]
fn null_result_display_and_no_source() {
    let err = Error::NullResult;
    assert_eq!(err.message(), "C library returned null (allocation failure)");
    assert!(err.source().is_none());
}

#[test]
fn conversion_has_source() {
    let nul_err = CString::new("a\0b").unwrap_err();
    let err = Error::Conversion(nul_err);
    assert!(err.source().is_some());
}

#[test]
fn conversion_message_names_the_position() {
    let err = count_vowels("a\0b").unwrap_err();
    assert_eq!(
        err.message(),
        "input contains an interior NUL byte: nul byte found in provided data at position: 1"
    );
    let err = str_reverse("abcdefghijkl\0\0").unwrap_err();
    assert_eq!(
        err.message(),
        "input contains an interior NUL byte: nul byte found in provided data at position: 12"
    );
}

#[test]
fn nul_error_records_position_and_bytes() {
    let e: NulError = CString::new("é\0x").unwrap_err();
    assert_eq!(e.nul_position(), 2);
    assert_eq!(e.as_bytes(), "é\0x".as_bytes());
    assert_eq!(e.message(), "nul byte found in provided data at position: 2");
    assert_eq!(e.into_vec(), "é\0x".as_bytes().to_vec());
}

#[test]
fn source_of_conversion_is_the_rejection() {
    let err = str_reverse("\0").unwrap_err();
    assert_eq!(err.source().unwrap().nul_position(), 0);
}

#[test]
fn decimal_string_writes_digits() {
    assert_eq!(decimal_string(0), "0");
    assert_eq!(decimal_string(7), "7");
    assert_eq!(decimal_string(10), "10");
    assert_eq!(decimal_string(1203), "1203");
    assert_eq!(decimal_string(usize::MAX), usize::MAX.to_string());
}
