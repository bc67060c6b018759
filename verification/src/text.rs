//! The character-level meaning of the byte routines: what text comes back when the bytes
//! that a routine produces are decoded as UTF-8, with invalid sequences replaced.
use vstd::prelude::*;
use vstd::utf8::*;

use crate::clib::is_ascii_vowel;
use crate::laws::lemma_starts_with_char_iff_valid;

verus! {

/// The number of bytes of the UTF-8 sequence that a leading byte announces; 0 for a byte
/// that starts no sequence (a continuation byte, 0xC0, 0xC1, or 0xF5 and above).
pub open spec fn utf8_width(b: u8) -> int {
    if b <= 0x7f {
        1
    } else if 0xc2 <= b <= 0xdf {
        2
    } else if 0xe0 <= b <= 0xef {
        3
    } else if 0xf0 <= b <= 0xf4 {
        4
    } else {
        0
    }
}

/// True when `b1` may follow the leading byte `b0` in a well-formed sequence: a
/// continuation byte, restricted so that no overlong form, surrogate or value above
/// U+10FFFF can start.
pub open spec fn second_byte_ok(b0: u8, b1: u8) -> bool {
    if 0xc2 <= b0 <= 0xdf {
        0x80 <= b1 <= 0xbf
    } else if b0 == 0xe0 {
        0xa0 <= b1 <= 0xbf
    } else if (0xe1 <= b0 <= 0xec) || (0xee <= b0 <= 0xef) {
        0x80 <= b1 <= 0xbf
    } else if b0 == 0xed {
        0x80 <= b1 <= 0x9f
    } else if b0 == 0xf0 {
        0x90 <= b1 <= 0xbf
    } else if 0xf1 <= b0 <= 0xf3 {
        0x80 <= b1 <= 0xbf
    } else if b0 == 0xf4 {
        0x80 <= b1 <= 0x8f
    } else {
        false
    }
}

/// The length of the sequence at the start of `bytes`: the bytes of a complete character,
/// or else the longest prefix that could still begin one (at least one byte).
pub open spec fn sequence_len(bytes: Seq<u8>) -> int {
    let w = utf8_width(bytes[0]);
    if w <= 1 {
        1
    } else if bytes.len() < 2 || !second_byte_ok(bytes[0], bytes[1]) {
        1
    } else if w == 2 {
        2
    } else if bytes.len() < 3 || !(0x80 <= bytes[2] <= 0xbf) {
        2
    } else if w == 3 {
        3
    } else if bytes.len() < 4 || !(0x80 <= bytes[3] <= 0xbf) {
        3
    } else {
        4
    }
}

/// True when `bytes` starts with the complete UTF-8 encoding of a character.
pub open spec fn starts_with_char(bytes: Seq<u8>) -> bool {
    &&& bytes.len() > 0
    &&& utf8_width(bytes[0]) >= 1
    &&& sequence_len(bytes) == utf8_width(bytes[0])
}

/// The replacement character U+FFFD.
pub open spec fn replacement_char() -> char {
    '\u{FFFD}'
}

/// The text that `String::from_utf8_lossy` reads from `bytes`: each complete character
/// decoded, and each maximal prefix of an unfinished or ill-formed sequence (including an
/// unfinished one at the end) replaced by one U+FFFD.
pub open spec fn utf8_lossy(bytes: Seq<u8>) -> Seq<char>
    decreases bytes.len(),
{
    if bytes.len() == 0 {
        seq![]
    } else {
        let c = if starts_with_char(bytes) {
            decode_first_codepoint(bytes) as char
        } else {
            replacement_char()
        };
        seq![c] + utf8_lossy(bytes.skip(sequence_len(bytes)))
    }
}

/// Calls `String::from_utf8_lossy` and takes the result as an owned `String`.
/// Claimed: the characters of the result are `utf8_lossy(bytes)`, the chunk-by-chunk
/// reading that the documentation of `from_utf8_lossy` and `Utf8Chunks` describes, and
/// for valid UTF-8 they are the decoded characters.
#[verifier::external_body]
pub(crate) fn decode_lossy(bytes: &[u8]) -> (r: String)
    ensures
        r@ == utf8_lossy(bytes@),
        valid_utf8(bytes@) ==> r@ == decode_utf8(bytes@),
{
    String::from_utf8_lossy(bytes).into_owned()
}

/// `c` with an ASCII lowercase letter folded to upper case; every other character unchanged.
pub open spec fn ascii_upper_char(c: char) -> char {
    if 'a' <= c <= 'z' {
        ((c as u32) - 32) as char
    } else {
        c
    }
}

/// `c` with an ASCII uppercase letter folded to lower case; every other character unchanged.
pub open spec fn ascii_lower_char(c: char) -> char {
    if 'A' <= c <= 'Z' {
        ((c as u32) + 32) as char
    } else {
        c
    }
}

/// The text with each ASCII lowercase letter folded to upper case.
pub open spec fn uppercase_text(s: Seq<char>) -> Seq<char> {
    s.map_values(|c: char| ascii_upper_char(c))
}

/// The text with each ASCII uppercase letter folded to lower case.
pub open spec fn lowercase_text(s: Seq<char>) -> Seq<char> {
    s.map_values(|c: char| ascii_lower_char(c))
}

/// The text read from `bytes`: the decoded characters when they are valid UTF-8, and
/// otherwise what `String::from_utf8_lossy` makes of them.
pub open spec fn read_text(bytes: Seq<u8>) -> Seq<char> {
    if valid_utf8(bytes) {
        decode_utf8(bytes)
    } else {
        utf8_lossy(bytes)
    }
}

/// The text read back from the UTF-8 bytes of `s` in reverse order.
pub open spec fn reversed_text(s: Seq<char>) -> Seq<char> {
    read_text(encode_utf8(s).reverse())
}

/// True when `c` is an ASCII vowel, lower or upper case.
pub open spec fn is_vowel_char(c: char) -> bool {
    (c as u32) < 128 && is_ascii_vowel((c as u32) as u8)
}

/// The number of ASCII vowel characters in `s`.
pub open spec fn vowel_char_count(s: Seq<char>) -> nat
    decreases s.len(),
{
    if s.len() == 0 {
        0
    } else {
        (if is_vowel_char(s[0]) {
            1nat
        } else {
            0nat
        }) + vowel_char_count(s.drop_first())
    }
}

fn utf8_width_of(b: u8) -> (w: usize)
    ensures
        w == utf8_width(b),
{
    if b <= 0x7f {
        1
    } else if 0xc2 <= b && b <= 0xdf {
        2
    } else if 0xe0 <= b && b <= 0xef {
        3
    } else if 0xf0 <= b && b <= 0xf4 {
        4
    } else {
        0
    }
}

fn second_byte_fits(b0: u8, b1: u8) -> (r: bool)
    ensures
        r == second_byte_ok(b0, b1),
{
    if 0xc2 <= b0 && b0 <= 0xdf {
        0x80 <= b1 && b1 <= 0xbf
    } else if b0 == 0xe0 {
        0xa0 <= b1 && b1 <= 0xbf
    } else if (0xe1 <= b0 && b0 <= 0xec) || (0xee <= b0 && b0 <= 0xef) {
        0x80 <= b1 && b1 <= 0xbf
    } else if b0 == 0xed {
        0x80 <= b1 && b1 <= 0x9f
    } else if b0 == 0xf0 {
        0x90 <= b1 && b1 <= 0xbf
    } else if 0xf1 <= b0 && b0 <= 0xf3 {
        0x80 <= b1 && b1 <= 0xbf
    } else if b0 == 0xf4 {
        0x80 <= b1 && b1 <= 0x8f
    } else {
        false
    }
}

fn is_continuation(b: u8) -> (r: bool)
    ensures
        r == (0x80 <= b <= 0xbf),
{
    0x80 <= b && b <= 0xbf
}

/// The length of the sequence that starts at position `i`.
fn sequence_len_at(bytes: &[u8], i: usize) -> (n: usize)
    requires
        i < bytes@.len(),
    ensures
        n == sequence_len(bytes@.skip(i as int)),
{
    let ghost rest = bytes@.skip(i as int);
    let left = bytes.len() - i;
    let w = utf8_width_of(bytes[i]);
    assert(rest[0] == bytes@[i as int]);
    if w <= 1 {
        1
    } else if left < 2 || !second_byte_fits(bytes[i], bytes[i + 1]) {
        1
    } else if w == 2 {
        2
    } else if left < 3 || !is_continuation(bytes[i + 2]) {
        2
    } else if w == 3 {
        3
    } else if left < 4 || !is_continuation(bytes[i + 3]) {
        3
    } else {
        4
    }
}

proof fn lemma_encode_prepend(c: char, rest: Seq<char>)
    ensures
        encode_utf8(seq![c] + rest) == encode_scalar(c as u32) + encode_utf8(rest),
{
    let s = seq![c] + rest;
    assert(s.drop_first() =~= rest);
    assert(s[0] == c);
}

proof fn lemma_complete_char_encoding(bytes: Seq<u8>)
    requires
        starts_with_char(bytes),
    ensures
        encode_scalar((decode_first_codepoint(bytes) as char) as u32) == bytes.take(
            sequence_len(bytes),
        ),
{
    lemma_starts_with_char_iff_valid(bytes);
    let n = sequence_len(bytes);
    let t = bytes.take(n);
    assert(forall|k: int| 0 <= k < n ==> t[k] == bytes[k]);
    assert(valid_first_scalar(t));
    assert(length_of_first_codepoint(t) == n);
    assert(decode_first_codepoint(t) == decode_first_codepoint(bytes));
    assert(pop_first_scalar(t).len() == 0);
    assert(valid_utf8(pop_first_scalar(t)));
    assert(valid_utf8(t));
    decode_utf8_first_scalar(t);
    assert(take_first_scalar(t) =~= t);
}

proof fn lemma_replacement_encoding()
    ensures
        encode_scalar(replacement_char() as u32) == seq![0xefu8, 0xbfu8, 0xbdu8],
{
    let v: u32 = 0xfffd;
    assert(replacement_char() as u32 == v);
    assert(leading_byte_width_3(v) == 0xef && second_last_continuation_byte(v) == 0xbf
        && last_continuation_byte(v) == 0xbd) by (bit_vector)
        requires
            v == 0xfffd,
    ;
    assert(has_width_3_encoding(v));
}

/// The bytes of the text that reading `bytes` with replacement gives: each complete
/// character copied, and each maximal ill-formed or unfinished sequence replaced by the
/// encoding of U+FFFD.
pub fn repair_utf8(bytes: &[u8]) -> (out: Vec<u8>)
    ensures
        out@ == encode_utf8(utf8_lossy(bytes@)),
{
    let len = bytes.len();
    let mut out: Vec<u8> = Vec::new();
    let mut i: usize = 0;
    assert(bytes@.skip(0) =~= bytes@);
    while i < len
        invariant
            len == bytes@.len(),
            i <= len,
            encode_utf8(utf8_lossy(bytes@)) == out@ + encode_utf8(utf8_lossy(bytes@.skip(i as int))),
        decreases len - i,
    {
        let ghost rest = bytes@.skip(i as int);
        proof {
            lemma_starts_with_char_iff_valid(rest);
        }
        let n = sequence_len_at(bytes, i);
        let w = utf8_width_of(bytes[i]);
        assert(rest[0] == bytes@[i as int]);
        let ghost c = if starts_with_char(rest) {
            decode_first_codepoint(rest) as char
        } else {
            replacement_char()
        };
        let ghost tail = utf8_lossy(rest.skip(n as int));
        proof {
            assert(rest.skip(n as int) =~= bytes@.skip(i + n));
            assert(utf8_lossy(rest) == seq![c] + tail);
            lemma_encode_prepend(c, tail);
        }
        let ghost before = out@;
        if w >= 1 && n == w {
            proof {
                lemma_complete_char_encoding(rest);
                assert(rest.take(n as int) =~= bytes@.subrange(i as int, i + n));
            }
            let mut k = i;
            while k < i + n
                invariant
                    len == bytes@.len(),
                    i <= k <= i + n <= len,
                    out@ == before + bytes@.subrange(i as int, k as int),
                decreases i + n - k,
            {
                out.push(bytes[k]);
                k = k + 1;
                assert(bytes@.subrange(i as int, k as int) =~= bytes@.subrange(i as int, k - 1)
                    + seq![bytes@[k - 1]]);
            }
        } else {
            proof {
                lemma_replacement_encoding();
            }
            out.push(0xef);
            out.push(0xbf);
            out.push(0xbd);
            assert(out@ =~= before + seq![0xefu8, 0xbfu8, 0xbdu8]);
        }
        assert(out@ + encode_utf8(tail) =~= before + (encode_scalar(c as u32) + encode_utf8(tail)));
        i = i + n;
    }
    assert(bytes@.skip(len as int) =~= Seq::<u8>::empty());
    assert(utf8_lossy(bytes@.skip(len as int)) =~= Seq::<char>::empty());
    assert(encode_utf8(Seq::<char>::empty()) =~= Seq::<u8>::empty());
    assert(out@ + Seq::<u8>::empty() =~= out@);
    out
}

} // verus!
