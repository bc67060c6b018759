//! String utilities over UTF-8 text: byte length, ASCII vowel count, byte reversal and
//! ASCII uppercasing. Each operation first turns its input into a C string, which fails
//! with [`Error::Conversion`] when the input holds a NUL byte; no routine runs then.
//! Vowel counting and uppercasing are ASCII-defined: a byte above 127 is never a vowel and
//! passes through unchanged.
use vstd::prelude::*;
use vstd::string::*;
use vstd::utf8::*;

pub mod clib;
pub mod cstring;
pub mod error;
pub mod laws;
pub mod text;

pub use error::{Error, NulError};

use crate::clib::vowel_count;
use crate::cstring::{nul_free, CString};
use crate::error::is_first_nul;
use crate::laws::{
    law_lossy_reads_valid_utf8, law_reverse_ascii_involution, law_reversed_text_reads_reversed_bytes, law_uppercase_byte_model,
    law_vowel_count_ascii,
};
use crate::text::{
    decode_lossy, read_text, repair_utf8, reversed_text, uppercase_text, utf8_lossy,
    vowel_char_count,
};

verus! {

/// True when `e` is the rejection of text with UTF-8 bytes `bytes`: they hold a NUL byte,
/// and `e` names the first one and carries all the bytes.
pub open spec fn is_conversion_error(bytes: Seq<u8>, e: Error) -> bool {
    &&& !nul_free(bytes)
    &&& e matches Error::Conversion(n)
    &&& is_first_nul(bytes, n@.0)
    &&& n@.1 == bytes
}

/// Converts the input into a C string, or reports its first NUL byte.
fn to_cstring(input: &str) -> (r: Result<CString, Error>)
    ensures
        match r {
            Ok(c) => nul_free(input.spec_bytes()) && c@ == input.spec_bytes(),
            Err(e) => is_conversion_error(input.spec_bytes(), e),
        },
{
    match CString::new(input) {
        Ok(c) => Ok(c),
        Err(e) => Err(Error::from(e)),
    }
}

/// Reads a C string produced by a routine back as text, replacing invalid UTF-8: the
/// ill-formed sequences are replaced first, so the decoding sees valid UTF-8 only.
fn from_c_owned(c: CString) -> (r: String)
    ensures
        r@ == read_text(c@),
        r@ == utf8_lossy(c@),
{
    let repaired = repair_utf8(c.as_bytes());
    proof {
        encode_utf8_valid_utf8(utf8_lossy(c@));
        encode_utf8_decode_utf8(utf8_lossy(c@));
        if valid_utf8(c@) {
            law_lossy_reads_valid_utf8(c@);
        }
    }
    decode_lossy(repaired.as_slice())
}

/// The length of the input in bytes: its UTF-8 length, not its number of characters.
///
/// Fails with [`Error::Conversion`] exactly when the input holds a NUL byte.
pub fn str_length(input: &str) -> (r: Result<usize, Error>)
    ensures
        match r {
            Ok(n) => nul_free(input.spec_bytes()) && n == input.spec_bytes().len(),
            Err(e) => is_conversion_error(input.spec_bytes(), e),
        },
{
    let c = match to_cstring(input) {
        Ok(c) => c,
        Err(e) => return Err(e),
    };
    Ok(clib::str_length(&c))
}

/// The number of ASCII vowels (`a e i o u`, either case) in the input; a byte above 127,
/// such as one of an accented vowel, is never counted.
///
/// Fails with [`Error::Conversion`] exactly when the input holds a NUL byte.
pub fn count_vowels(input: &str) -> (r: Result<usize, Error>)
    ensures
        match r {
            Ok(n) => {
                &&& nul_free(input.spec_bytes())
                &&& n == vowel_count(input.spec_bytes())
                &&& n == vowel_char_count(input@)
            },
            Err(e) => is_conversion_error(input.spec_bytes(), e),
        },
{
    let c = match to_cstring(input) {
        Ok(c) => c,
        Err(e) => return Err(e),
    };
    proof {
        law_vowel_count_ascii(input@);
    }
    Ok(clib::count_vowels(&c))
}

/// The input with its bytes in reverse order, read back as text; a byte sequence that is
/// not valid UTF-8 there reads as U+FFFD. For ASCII input this is the reversed text.
///
/// Fails with [`Error::Conversion`] exactly when the input holds a NUL byte.
pub fn str_reverse(input: &str) -> (r: Result<String, Error>)
    ensures
        match r {
            Ok(out) => {
                &&& nul_free(input.spec_bytes())
                &&& out@ == reversed_text(input@)
                &&& out@ == utf8_lossy(input.spec_bytes().reverse())
                &&& valid_utf8(input.spec_bytes().reverse()) ==> encode_utf8(out@)
                    == input.spec_bytes().reverse()
                &&& is_ascii_chars(input@) ==> out@ == input@.reverse()
            },
            Err(e) => is_conversion_error(input.spec_bytes(), e),
        },
{
    let c = match to_cstring(input) {
        Ok(c) => c,
        Err(e) => return Err(e),
    };
    let reversed = clib::str_reverse(&c);
    proof {
        law_reversed_text_reads_reversed_bytes(input@);
        if is_ascii_chars(input@) {
            law_reverse_ascii_involution(input@);
        }
        if valid_utf8(input.spec_bytes().reverse()) {
            decode_utf8_encode_utf8(input.spec_bytes().reverse());
        }
    }
    Ok(from_c_owned(reversed))
}

/// The input with each ASCII lowercase letter folded to upper case; every other
/// character, and so every byte above 127, is unchanged.
///
/// Fails with [`Error::Conversion`] exactly when the input holds a NUL byte.
pub fn to_uppercase(input: &str) -> (r: Result<String, Error>)
    ensures
        match r {
            Ok(out) => nul_free(input.spec_bytes()) && out@ == uppercase_text(input@),
            Err(e) => is_conversion_error(input.spec_bytes(), e),
        },
{
    let c = match to_cstring(input) {
        Ok(c) => c,
        Err(e) => return Err(e),
    };
    let upper = clib::to_uppercase(&c);
    proof {
        law_uppercase_byte_model(input@);
        encode_utf8_valid_utf8(uppercase_text(input@));
        encode_utf8_decode_utf8(uppercase_text(input@));
        assert(upper@ == encode_utf8(uppercase_text(input@)));
    }
    Ok(from_c_owned(upper))
}

/// The results of all four operations on one input.
#[derive(Debug)]
pub struct Summary {
    pub length: usize,
    pub vowels: usize,
    pub reversed: String,
    pub uppercase: String,
}

/// Runs all four operations on the input; the first failure is returned and no partial
/// result is.
pub fn summarize(input: &str) -> (r: Result<Summary, Error>)
    ensures
        match r {
            Ok(s) => {
                &&& nul_free(input.spec_bytes())
                &&& s.length == input.spec_bytes().len()
                &&& s.vowels == vowel_count(input.spec_bytes())
                &&& s.reversed@ == reversed_text(input@)
                &&& s.uppercase@ == uppercase_text(input@)
            },
            Err(e) => is_conversion_error(input.spec_bytes(), e),
        },
{
    let length = match str_length(input) {
        Ok(n) => n,
        Err(e) => return Err(e),
    };
    let vowels = match count_vowels(input) {
        Ok(n) => n,
        Err(e) => return Err(e),
    };
    let reversed = match str_reverse(input) {
        Ok(s) => s,
        Err(e) => return Err(e),
    };
    let uppercase = match to_uppercase(input) {
        Ok(s) => s,
        Err(e) => return Err(e),
    };
    Ok(Summary { length, vowels, reversed, uppercase })
}

} // verus!
