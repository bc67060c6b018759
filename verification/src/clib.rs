//! The C string routines: length, ASCII vowel count, byte reversal and ASCII uppercasing.
//! They work on bytes; a byte above 127 is never a vowel and is never changed.
use vstd::prelude::*;

use crate::cstring::{nul_free, CString};

verus! {

/// True when `b` is an ASCII vowel, lower or upper case.
pub open spec fn is_ascii_vowel(b: u8) -> bool {
    ||| b == 0x61 || b == 0x65 || b == 0x69 || b == 0x6f || b == 0x75
    ||| b == 0x41 || b == 0x45 || b == 0x49 || b == 0x4f || b == 0x55
}

/// The number of ASCII vowel bytes in `bytes`.
pub open spec fn vowel_count(bytes: Seq<u8>) -> nat
    decreases bytes.len(),
{
    if bytes.len() == 0 {
        0
    } else {
        vowel_count(bytes.drop_last()) + if is_ascii_vowel(bytes.last()) {
            1nat
        } else {
            0nat
        }
    }
}

/// `b` with an ASCII lowercase letter folded to upper case; every other byte unchanged.
pub open spec fn ascii_upper(b: u8) -> u8 {
    if 0x61 <= b <= 0x7a {
        (b - 32) as u8
    } else {
        b
    }
}

/// The bytes with each ASCII lowercase letter folded to upper case.
pub open spec fn ascii_upper_bytes(bytes: Seq<u8>) -> Seq<u8> {
    bytes.map_values(|b: u8| ascii_upper(b))
}

fn is_vowel_byte(b: u8) -> (r: bool)
    ensures
        r == is_ascii_vowel(b),
{
    b == 0x61 || b == 0x65 || b == 0x69 || b == 0x6f || b == 0x75 || b == 0x41 || b == 0x45
        || b == 0x49 || b == 0x4f || b == 0x55
}

fn upper_byte(b: u8) -> (r: u8)
    ensures
        r == ascii_upper(b),
{
    if 0x61 <= b && b <= 0x7a {
        b - 32
    } else {
        b
    }
}

/// The number of bytes before the terminating NUL.
pub fn str_length(s: &CString) -> (n: usize)
    ensures
        n == s@.len(),
{
    let bytes = s.as_bytes();
    let mut n: usize = 0;
    while n < bytes.len() && bytes[n] != 0
        invariant
            bytes@ == s@,
            nul_free(s@),
            n <= bytes@.len(),
        decreases bytes@.len() - n,
    {
        n = n + 1;
    }
    n
}

/// The number of ASCII vowel bytes.
pub fn count_vowels(s: &CString) -> (n: usize)
    ensures
        n == vowel_count(s@),
{
    let bytes = s.as_bytes();
    let len = bytes.len();
    let mut count: usize = 0;
    let mut i: usize = 0;
    while i < len
        invariant
            bytes@ == s@,
            len == bytes@.len(),
            i <= len,
            count <= i,
            count == vowel_count(bytes@.take(i as int)),
        decreases len - i,
    {
        assert(bytes@.take(i + 1).drop_last() =~= bytes@.take(i as int));
        if is_vowel_byte(bytes[i]) {
            count = count + 1;
        }
        i = i + 1;
    }
    assert(bytes@.take(len as int) =~= bytes@);
    count
}

/// A new C string holding the bytes in reverse order.
pub fn str_reverse(s: &CString) -> (r: CString)
    ensures
        r@ == s@.reverse(),
{
    let bytes = s.as_bytes();
    let len = bytes.len();
    let mut out: Vec<u8> = Vec::with_capacity(len);
    let mut i: usize = 0;
    while i < len
        invariant
            bytes@ == s@,
            nul_free(s@),
            len == bytes@.len(),
            i <= len,
            out@.len() == i,
            forall|j: int| 0 <= j < i ==> out@[j] == bytes@[len - 1 - j],
        decreases len - i,
    {
        out.push(bytes[len - 1 - i]);
        i = i + 1;
    }
    assert(out@ =~= s@.reverse());
    CString::from_nul_free_vec(out)
}

/// A new C string holding the bytes with each ASCII lowercase letter folded to upper case.
pub fn to_uppercase(s: &CString) -> (r: CString)
    ensures
        r@ == ascii_upper_bytes(s@),
{
    let bytes = s.as_bytes();
    let len = bytes.len();
    let mut out: Vec<u8> = Vec::with_capacity(len);
    let mut i: usize = 0;
    while i < len
        invariant
            bytes@ == s@,
            nul_free(s@),
            len == bytes@.len(),
            i <= len,
            out@.len() == i,
            forall|j: int| 0 <= j < i ==> out@[j] == ascii_upper(bytes@[j]),
        decreases len - i,
    {
        out.push(upper_byte(bytes[i]));
        i = i + 1;
    }
    assert(out@ =~= ascii_upper_bytes(s@));
    CString::from_nul_free_vec(out)
}

} // verus!
