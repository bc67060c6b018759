use stringutils::{count_vowels, str_length, str_reverse, summarize, to_uppercase, Error};

fn samples() -> Vec<String> {
    let mut out = vec![
        String::new(),
        "a".to_string(),
        "héllo 世界!".to_string(),
        "ÀÉÎÕÜ aeiou AEIOU".to_string(),
        "🦀 rust ß ÿ".to_string(),
        "\u{7f}\u{80}\u{7ff}\u{800}\u{ffff}\u{10000}\u{10ffff}".to_string(),
    ];
    for i in 0..200usize {
        let s: String = (0..(i % 23))
            .map(|j| char::from_u32(((i * 7919 + j * 104729) % 0x3000 + 1) as u32).unwrap_or('x'))
            .collect();
        out.push(s);
    }
    out
}

fn ascii_samples() -> Vec<String> {
    (0..200usize)
        .map(|i| {
            (0..(i % 37))
                .map(|j| (((i * 31 + j * 17) % 127) as u8 + 1) as char)
                .collect()
        })
        .collect()
}

fn host_vowel_count(s: &str) -> usize {
    s.as_bytes()
        .iter()
        .filter(|&&b| matches!(b, b'a' | b'e' | b'i' | b'o' | b'u' | b'A' | b'E' | b'I' | b'O' | b'U'))
        .count()
}

fn host_uppercase_bytes(s: &str) -> Vec<u8> {
    s.as_bytes()
        .iter()
        .map(|&b| if b.is_ascii_lowercase() { b - 32 } else { b })
        .collect()
}

#[test]
fn length_equals_host_byte_length() {
    for s in samples() {
        assert_eq!(str_length(&s).unwrap(), s.as_bytes().len());
    }
}

#[test]
fn reverse_is_an_involution_on_ascii() {
    for s in ascii_samples() {
        let reversed = str_reverse(&s).unwrap();
        let mut host = s.as_bytes().to_vec();
        host.reverse();
        assert_eq!(reversed.as_bytes(), host.as_slice());
        assert_eq!(str_reverse(&reversed).unwrap(), s);
    }
}

#[test]
fn vowel_count_equals_host_ascii_model() {
    for s in samples() {
        assert_eq!(count_vowels(&s).unwrap(), host_vowel_count(&s));
    }
}

#[test]
fn uppercase_equals_host_ascii_model() {
    for s in samples() {
        let upper = to_uppercase(&s).unwrap();
        assert_eq!(upper.as_bytes(), host_uppercase_bytes(&s).as_slice());
        assert_eq!(upper, s.to_ascii_uppercase());
    }
}

#[test]
fn ascii_case_round_trip() {
    for i in 0..200usize {
        let s: String = (0..(i % 29)).map(|j| (b'a' + ((i + 3 * j) % 26) as u8) as char).collect();
        assert_eq!(to_uppercase(&s).unwrap().to_lowercase(), s);
    }
}

#[test]
fn interior_nul_always_yields_conversion_error() {
    let parts = samples();
    for (a, b) in parts.iter().zip(parts.iter().rev()) {
        let s = format!("{a}\0{b}");
        assert!(matches!(str_length(&s), Err(Error::Conversion(_))));
        assert!(matches!(count_vowels(&s), Err(Error::Conversion(_))));
        assert!(matches!(str_reverse(&s), Err(Error::Conversion(_))));
        assert!(matches!(to_uppercase(&s), Err(Error::Conversion(_))));
        match str_length(&s) {
            Err(Error::Conversion(e)) => assert_eq!(e.nul_position(), a.len()),
            _ => unreachable!(),
        }
    }
}

#[test]
fn summarize_runs_all_four_operations() {
    let s = summarize("hello world").unwrap();
    assert_eq!(s.length, 11);
    assert_eq!(s.vowels, 3);
    assert_eq!(s.reversed, "dlrow olleh");
    assert_eq!(s.uppercase, "HELLO WORLD");
    assert!(matches!(summarize("a\0b"), Err(Error::Conversion(_))));
}
