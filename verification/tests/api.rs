use stringutils::{count_vowels, str_length, str_reverse, to_uppercase, Error};

#[test]
fn representative_valid_inputs() {
    assert_eq!(str_length("hello world").unwrap(), 11);
    assert_eq!(count_vowels("hello world").unwrap(), 3);
    assert_eq!(str_reverse("hello").unwrap(), "olleh");
    assert_eq!(to_uppercase("hello").unwrap(), "HELLO");
}

#[test]
fn empty_string_input() {
    assert_eq!(str_length("").unwrap(), 0);
    assert_eq!(count_vowels("").unwrap(), 0);
    assert_eq!(str_reverse("").unwrap(), "");
    assert_eq!(to_uppercase("").unwrap(), "");
}

#[test]
fn single_character_input() {
    assert_eq!(str_length("a").unwrap(), 1);
    assert_eq!(count_vowels("a").unwrap(), 1);
    assert_eq!(count_vowels("z").unwrap(), 0);
    assert_eq!(str_reverse("a").unwrap(), "a");
    assert_eq!(to_uppercase("a").unwrap(), "A");
    assert_eq!(to_uppercase("Z").unwrap(), "Z");
}

#[test]
fn special_and_multibyte_unicode_input_does_not_panic() {
    let input = "héllo 世界!";
    assert_eq!(str_length(input).unwrap(), input.as_bytes().len());
    let _ = count_vowels(input).unwrap();
    let _ = str_reverse(input).unwrap();
    let _ = to_uppercase(input).unwrap();
}

#[test]
fn uppercase_leaves_non_ascii_bytes_unchanged() {
    assert_eq!(to_uppercase("héllo").unwrap(), "HéLLO");
    let out = to_uppercase("héllo").unwrap();
    assert_eq!(&out.as_bytes()[1..3], "é".as_bytes());
}

#[test]
fn vowels_do_not_count_non_ascii() {
    assert_eq!(count_vowels("héllo").unwrap(), 1);
}

#[test]
fn interior_nul_yields_conversion_error() {
    assert!(matches!(str_length("a\0b"), Err(Error::Conversion(_))));
    assert!(matches!(count_vowels("a\0b"), Err(Error::Conversion(_))));
    assert!(matches!(str_reverse("a\0b"), Err(Error::Conversion(_))));
    assert!(matches!(to_uppercase("a\0b"), Err(Error::Conversion(_))));
}

#[test]
fn length_equals_byte_length() {
    for input in ["", "a", "hello", "hello world", "héllo", "世界", "🦀 rust"] {
        assert_eq!(
            str_length(input).unwrap(),
            input.as_bytes().len(),
            "byte-length mismatch for {input:?}"
        );
    }
}

#[test]
fn reverse_of_non_ascii_replaces_invalid_sequences() {
    // The bytes of "é" (0xC3 0xA9) come back as 0xA9 0xC3: neither starts a valid
    // sequence there, so each reads as U+FFFD.
    assert_eq!(str_reverse("héllo").unwrap(), "oll\u{FFFD}\u{FFFD}h");
}

#[test]
fn reverse_keeps_valid_multibyte_bytes_when_they_stay_valid() {
    // A lone multi-byte character whose bytes reversed are invalid still reads back,
    // replaced, never failing.
    let out = str_reverse("世").unwrap();
    assert!(out.chars().all(|c| c == '\u{FFFD}'));
    assert!(!out.is_empty());
}

#[test]
fn uppercase_folds_only_ascii_letters() {
    assert_eq!(to_uppercase("aZ09 _!~{`").unwrap(), "AZ09 _!~{`");
    assert_eq!(to_uppercase("ÿ straße").unwrap(), "ÿ STRAßE");
}

#[test]
fn vowels_count_both_cases() {
    assert_eq!(count_vowels("AEIOUaeiou").unwrap(), 10);
    assert_eq!(count_vowels("bcdfgy").unwrap(), 0);
    assert_eq!(count_vowels("ÀÉÎÕÜ").unwrap(), 0);
}

#[test]
fn nul_at_start_and_end_is_rejected() {
    for input in ["\0", "\0abc", "abc\0", "é\0"] {
        assert!(matches!(str_length(input), Err(Error::Conversion(_))));
        assert!(matches!(to_uppercase(input), Err(Error::Conversion(_))));
    }
}
