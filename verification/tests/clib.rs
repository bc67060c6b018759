use stringutils::clib;
use stringutils::cstring::CString;

#[test]
fn str_length_binding_links_and_counts() {
    let c = CString::new("hello").unwrap();
    let n = clib::str_length(&c);
    assert_eq!(n, 5);
}

#[test]
fn c_string_holds_the_utf8_bytes() {
    let c = CString::new("héllo").unwrap();
    assert_eq!(c.as_bytes(), "héllo".as_bytes());
    assert_eq!(c.into_bytes(), "héllo".as_bytes().to_vec());
}

#[test]
fn c_routines_work_on_bytes() {
    let c = CString::new("héllo").unwrap();
    assert_eq!(clib::str_length(&c), 6);
    assert_eq!(clib::count_vowels(&c), 1);
    assert_eq!(
        clib::str_reverse(&c).as_bytes(),
        &[b'o', b'l', b'l', 0xA9, 0xC3, b'h']
    );
    assert_eq!(clib::to_uppercase(&c).as_bytes(), "HéLLO".as_bytes());
}

#[test]
fn from_nul_free_vec_keeps_the_bytes() {
    let c = CString::from_nul_free_vec(vec![1, 2, 3]);
    assert_eq!(c.as_bytes(), &[1, 2, 3]);
}
