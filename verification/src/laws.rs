//! The laws of the library: what holds of the operations for every input, stated over
//! the models that their contracts use.
use vstd::prelude::*;
use vstd::utf8::*;

use crate::clib::{ascii_upper, ascii_upper_bytes, is_ascii_vowel, vowel_count};
use crate::cstring::nul_free;
use crate::text::{
    ascii_lower_char, ascii_upper_char, lowercase_text, replacement_char, reversed_text,
    second_byte_ok, sequence_len, starts_with_char, uppercase_text, utf8_lossy,
    vowel_char_count,
};

verus! {

proof fn lemma_upper_scalar(c: char)
    ensures
        encode_scalar(ascii_upper_char(c) as u32) == ascii_upper_bytes(encode_scalar(c as u32)),
{
    let v = c as u32;
    if 'a' <= c <= 'z' {
        let w = ascii_upper_char(c) as u32;
        assert(w == v - 32);
        assert(0x61 <= v <= 0x7a);
        let b = leading_byte_width_1(v);
        assert(b == v as u8 && 0x61 <= b <= 0x7a && leading_byte_width_1(w) == (v - 32) as u8)
            by (bit_vector)
            requires
                0x61 <= v <= 0x7a,
                w == v - 32,
                b == (v & 0x7F) as u8,
        ;
        assert(ascii_upper_bytes(encode_scalar(v)) =~= seq![ascii_upper(b)]);
        assert(encode_scalar(w) =~= seq![leading_byte_width_1(w)]);
    } else if v <= 0x7F {
        let b = leading_byte_width_1(v);
        assert(b == v as u8) by (bit_vector)
            requires
                v <= 0x7F,
                b == (v & 0x7F) as u8,
        ;
        assert(ascii_upper_bytes(encode_scalar(v)) =~= encode_scalar(v));
    } else {
        let e = encode_scalar(v);
        assert(leading_byte_width_2(v) >= 0x80 && leading_byte_width_3(v) >= 0x80
            && leading_byte_width_4(v) >= 0x80 && last_continuation_byte(v) >= 0x80
            && second_last_continuation_byte(v) >= 0x80 && third_last_continuation_byte(v)
            >= 0x80) by (bit_vector);
        assert forall|i: int| 0 <= i < e.len() implies e[i] >= 0x80 by {}
        assert(ascii_upper_bytes(e) =~= e);
    }
}

/// Folding ASCII letters to upper case in the text folds the same letters in its UTF-8
/// bytes: no byte of a character above 127 is touched.
pub proof fn law_uppercase_byte_model(s: Seq<char>)
    ensures
        encode_utf8(uppercase_text(s)) == ascii_upper_bytes(encode_utf8(s)),
    decreases s.len(),
{
    if s.len() > 0 {
        let u = uppercase_text(s);
        let rest = s.drop_first();
        assert(u.drop_first() =~= uppercase_text(rest));
        law_uppercase_byte_model(rest);
        lemma_upper_scalar(s[0]);
        assert(ascii_upper_bytes(encode_scalar(s[0] as u32) + encode_utf8(rest)) =~= ascii_upper_bytes(
            encode_scalar(s[0] as u32),
        ) + ascii_upper_bytes(encode_utf8(rest)));
    }
}

/// The UTF-8 bytes of ASCII text, reversed, are the bytes of the reversed text.
proof fn lemma_reverse_ascii_encoding(s: Seq<char>)
    requires
        is_ascii_chars(s),
    ensures
        encode_utf8(s).reverse() == encode_utf8(s.reverse()),
{
    let r = s.reverse();
    assert(is_ascii_chars(r));
    is_ascii_chars_encode_utf8(s);
    is_ascii_chars_encode_utf8(r);
    let n = s.len();
    assert forall|i: int| 0 <= i < n implies encode_utf8(s).reverse()[i] == encode_utf8(r)[i] by {
        assert(r[i] == s[n - 1 - i]);
    }
    assert(encode_utf8(s).reverse() =~= encode_utf8(r));
}

/// The UTF-8 bytes of a text hold a zero byte exactly when the text holds a NUL character.
pub proof fn law_nul_byte_iff_nul_char(s: Seq<char>)
    ensures
        nul_free(encode_utf8(s)) <==> !s.contains('\0'),
    decreases s.len(),
{
    if s.len() > 0 {
        let rest = s.drop_first();
        let e = encode_scalar(s[0] as u32);
        law_nul_byte_iff_nul_char(rest);
        let v = s[0] as u32;
        assert(leading_byte_width_2(v) >= 0x80 && leading_byte_width_3(v) >= 0x80
            && leading_byte_width_4(v) >= 0x80 && last_continuation_byte(v) >= 0x80
            && second_last_continuation_byte(v) >= 0x80 && third_last_continuation_byte(v)
            >= 0x80) by (bit_vector);
        assert(v <= 0x7F ==> ((leading_byte_width_1(v) == 0) <==> v == 0)) by (bit_vector);
        char_u32_cast(s[0], v);
        assert(v == 0 <==> s[0] == '\0');
        let whole = e + encode_utf8(rest);
        assert(whole == encode_utf8(s));
        if s.contains('\0') {
            let k = choose|k: int| 0 <= k < s.len() && s[k] == '\0';
            if k == 0 {
                assert(whole[0] == 0);
            } else {
                assert(rest[k - 1] == '\0');
                let j = choose|j: int| 0 <= j < encode_utf8(rest).len() && encode_utf8(rest)[j] == 0;
                assert(whole[e.len() + j] == 0);
            }
        } else {
            assert(s[0] != '\0');
            assert(!rest.contains('\0')) by {
                if rest.contains('\0') {
                    let k = choose|k: int| 0 <= k < rest.len() && rest[k] == '\0';
                    assert(s[k + 1] == '\0');
                }
            }
            assert forall|i: int| 0 <= i < whole.len() implies whole[i] != 0 by {
                if i < e.len() {
                    assert(e[i] != 0);
                } else {
                    assert(whole[i] == encode_utf8(rest)[i - e.len()]);
                }
            }
        }
    }
}

proof fn lemma_vowel_count_append(a: Seq<u8>, b: Seq<u8>)
    ensures
        vowel_count(a + b) == vowel_count(a) + vowel_count(b),
    decreases b.len(),
{
    if b.len() > 0 {
        assert((a + b).drop_last() =~= a + b.drop_last());
        lemma_vowel_count_append(a, b.drop_last());
    } else {
        assert(a + b =~= a);
    }
}

/// Counting ASCII vowel bytes in the UTF-8 bytes of a text counts its ASCII vowel
/// characters: no byte of a character above 127 is a vowel.
pub proof fn law_vowel_count_ascii(s: Seq<char>)
    ensures
        vowel_count(encode_utf8(s)) == vowel_char_count(s),
    decreases s.len(),
{
    if s.len() > 0 {
        let rest = s.drop_first();
        let v = s[0] as u32;
        let e = encode_scalar(v);
        law_vowel_count_ascii(rest);
        lemma_vowel_count_append(e, encode_utf8(rest));
        if v <= 0x7F {
            let b = leading_byte_width_1(v);
            assert(b == v as u8) by (bit_vector)
                requires
                    v <= 0x7F,
                    b == (v & 0x7F) as u8,
            ;
            assert(e =~= seq![b]);
            assert(e.drop_last() =~= Seq::<u8>::empty());
            assert(vowel_count(e.drop_last()) == 0);
            assert(e.last() == b);
        } else {
            assert(leading_byte_width_2(v) >= 0x80 && leading_byte_width_3(v) >= 0x80
                && leading_byte_width_4(v) >= 0x80 && last_continuation_byte(v) >= 0x80
                && second_last_continuation_byte(v) >= 0x80 && third_last_continuation_byte(v)
                >= 0x80) by (bit_vector);
            assert(vowel_count(e) == 0) by {
                reveal_with_fuel(vowel_count, 5);
            }
        }
    }
}

/// Reversing ASCII text reverses its characters, byte for byte, and reversing the result
/// gives the text back.
pub proof fn law_reverse_ascii_involution(s: Seq<char>)
    requires
        is_ascii_chars(s),
    ensures
        reversed_text(s) == s.reverse(),
        encode_utf8(reversed_text(s)) == encode_utf8(s).reverse(),
        reversed_text(reversed_text(s)) == s,
{
    let r = s.reverse();
    lemma_reverse_ascii_encoding(s);
    encode_utf8_valid_utf8(r);
    encode_utf8_decode_utf8(r);
    assert(reversed_text(s) == r);
    assert(is_ascii_chars(r));
    lemma_reverse_ascii_encoding(r);
    assert(r.reverse() =~= s);
    encode_utf8_valid_utf8(s);
    encode_utf8_decode_utf8(s);
}

/// Uppercasing text made of ASCII lowercase letters, then folding the result back to lower
/// case, gives the text back.
pub proof fn law_ascii_case_round_trip(s: Seq<char>)
    requires
        forall|i: int| 0 <= i < s.len() ==> 'a' <= #[trigger] s[i] <= 'z',
    ensures
        lowercase_text(uppercase_text(s)) == s,
{
    assert forall|i: int| 0 <= i < s.len() implies #[trigger] lowercase_text(
        uppercase_text(s),
    )[i] == s[i] by {
        let c = s[i];
        let u = ascii_upper_char(c);
        assert('A' <= u <= 'Z');
        assert(ascii_lower_char(u) == c);
    }
    assert(lowercase_text(uppercase_text(s)) =~= s);
}

/// A byte is an ASCII vowel exactly when it is one of `a e i o u A E I O U`.
pub proof fn law_ascii_vowel_bytes(b: u8)
    ensures
        is_ascii_vowel(b) <==> seq!['a', 'e', 'i', 'o', 'u', 'A', 'E', 'I', 'O', 'U'].contains(
            b as char,
        ),
{
    let vowels = seq!['a', 'e', 'i', 'o', 'u', 'A', 'E', 'I', 'O', 'U'];
    if is_ascii_vowel(b) {
        if b == 0x61 {
            assert(vowels[0] == b as char);
        } else if b == 0x65 {
            assert(vowels[1] == b as char);
        } else if b == 0x69 {
            assert(vowels[2] == b as char);
        } else if b == 0x6f {
            assert(vowels[3] == b as char);
        } else if b == 0x75 {
            assert(vowels[4] == b as char);
        } else if b == 0x41 {
            assert(vowels[5] == b as char);
        } else if b == 0x45 {
            assert(vowels[6] == b as char);
        } else if b == 0x49 {
            assert(vowels[7] == b as char);
        } else if b == 0x4f {
            assert(vowels[8] == b as char);
        } else {
            assert(vowels[9] == b as char);
        }
    }
    if vowels.contains(b as char) {
        let k = choose|k: int| 0 <= k < vowels.len() && vowels[k] == b as char;
        assert(0 <= k < 10);
    }
}

/// The vowel count of a byte string is the number of its bytes that are one of
/// `a e i o u A E I O U`.
pub proof fn law_vowel_count_is_vowel_bytes(bytes: Seq<u8>)
    ensures
        vowel_count(bytes) == bytes.filter(
            |b: u8| seq!['a', 'e', 'i', 'o', 'u', 'A', 'E', 'I', 'O', 'U'].contains(b as char),
        ).len(),
    decreases bytes.len(),
{
    reveal(Seq::filter);
    if bytes.len() > 0 {
        law_vowel_count_is_vowel_bytes(bytes.drop_last());
        law_ascii_vowel_bytes(bytes.last());
    }
}

proof fn lemma_width_1(b0: u8)
    by (bit_vector)
    ensures
        b0 <= 0x7f ==> codepoint_width_1(b0) <= 0x7f,
{
}

proof fn lemma_width_2(b0: u8, b1: u8)
    by (bit_vector)
    ensures
        (is_leading_byte_width_2(b0) && is_continuation_byte(b1) && 0x80 <= codepoint_width_2(
            b0,
            b1,
        ) && not_surrogate(codepoint_width_2(b0, b1))) <==> (0xc2 <= b0 <= 0xdf && 0x80 <= b1
            <= 0xbf),
{
}

proof fn lemma_width_3(b0: u8, b1: u8, b2: u8)
    by (bit_vector)
    ensures
        (is_leading_byte_width_3(b0) && is_continuation_byte(b1) && is_continuation_byte(b2)
            && 0x800 <= codepoint_width_3(b0, b1, b2) && not_surrogate(
            codepoint_width_3(b0, b1, b2),
        )) <==> (0xe0 <= b0 <= 0xef && second_byte_ok(b0, b1) && 0x80 <= b2 <= 0xbf),
{
}

proof fn lemma_width_4(b0: u8, b1: u8, b2: u8, b3: u8)
    by (bit_vector)
    ensures
        (is_leading_byte_width_4(b0) && is_continuation_byte(b1) && is_continuation_byte(b2)
            && is_continuation_byte(b3) && 0x10000 <= codepoint_width_4(b0, b1, b2, b3)
            <= 0x10ffff && not_surrogate(codepoint_width_4(b0, b1, b2, b3))) <==> (0xf0 <= b0
            <= 0xf4 && second_byte_ok(b0, b1) && 0x80 <= b2 <= 0xbf && 0x80 <= b3 <= 0xbf),
{
}

/// The chunk reading agrees with UTF-8 validity: a sequence counts as a complete
/// character exactly when it is a well-formed encoding of one, and then it has that
/// encoding's length.
pub proof fn lemma_starts_with_char_iff_valid(bytes: Seq<u8>)
    requires
        bytes.len() > 0,
    ensures
        starts_with_char(bytes) <==> valid_first_scalar(bytes),
        starts_with_char(bytes) ==> sequence_len(bytes) == length_of_first_codepoint(bytes),
        1 <= sequence_len(bytes) <= bytes.len(),
{
    lemma_width_1(bytes[0]);
    lemma_width_2(bytes[0], bytes[1]);
    lemma_width_3(bytes[0], bytes[1], bytes[2]);
    lemma_width_4(bytes[0], bytes[1], bytes[2], bytes[3]);
}

/// Reading valid UTF-8 with replacement decodes it: no replacement character appears.
pub proof fn law_lossy_reads_valid_utf8(bytes: Seq<u8>)
    requires
        valid_utf8(bytes),
    ensures
        utf8_lossy(bytes) == decode_utf8(bytes),
    decreases bytes.len(),
{
    if bytes.len() > 0 {
        lemma_starts_with_char_iff_valid(bytes);
        let n = length_of_first_codepoint(bytes);
        assert(bytes.skip(n) =~= pop_first_scalar(bytes));
        law_lossy_reads_valid_utf8(pop_first_scalar(bytes));
    }
}

/// Reading with replacement splits at any byte that is not a continuation byte: the text
/// of `p + q` is the text of `p` followed by the text of `q`. An unfinished sequence at
/// the end of `p` is replaced on its own and never swallows the start of `q`.
pub proof fn law_lossy_append(p: Seq<u8>, q: Seq<u8>)
    requires
        q.len() > 0 ==> !(0x80 <= q[0] <= 0xbf),
    ensures
        utf8_lossy(p + q) == utf8_lossy(p) + utf8_lossy(q),
    decreases p.len(),
{
    let pq = p + q;
    if p.len() == 0 {
        assert(pq =~= q);
        assert(utf8_lossy(p) =~= Seq::<char>::empty());
        assert(utf8_lossy(p) + utf8_lossy(q) =~= utf8_lossy(q));
    } else {
        lemma_starts_with_char_iff_valid(p);
        lemma_starts_with_char_iff_valid(pq);
        let n = sequence_len(p);
        assert(forall|i: int| 0 <= i < p.len() ==> pq[i] == p[i]);
        assert(q.len() > 0 ==> pq[p.len() as int] == q[0]);
        assert(sequence_len(pq) == n);
        assert(starts_with_char(pq) == starts_with_char(p));
        assert(starts_with_char(p) ==> decode_first_codepoint(pq) == decode_first_codepoint(p));
        assert(pq.skip(n) =~= p.skip(n) + q);
        law_lossy_append(p.skip(n), q);
        let c = if starts_with_char(p) {
            decode_first_codepoint(p) as char
        } else {
            replacement_char()
        };
        assert(utf8_lossy(pq) == seq![c] + utf8_lossy(p.skip(n) + q));
        assert(utf8_lossy(p) == seq![c] + utf8_lossy(p.skip(n)));
        assert(seq![c] + (utf8_lossy(p.skip(n)) + utf8_lossy(q)) =~= (seq![c] + utf8_lossy(
            p.skip(n),
        )) + utf8_lossy(q));
    }
}

/// A byte of 0xC0 or above at the end of the input starts no complete character, so it
/// reads as one replacement character of its own after the text of the bytes before it.
pub proof fn law_lossy_trailing_lead_byte(p: Seq<u8>, b: u8)
    requires
        b >= 0xc0,
    ensures
        utf8_lossy(p.push(b)) == utf8_lossy(p).push(replacement_char()),
        utf8_lossy(p.push(b)).last() == replacement_char(),
{
    let q = seq![b];
    assert(p.push(b) =~= p + q);
    law_lossy_append(p, q);
    lemma_starts_with_char_iff_valid(q);
    assert(sequence_len(q) == 1);
    assert(!starts_with_char(q));
    assert(q.skip(1) =~= Seq::<u8>::empty());
    assert(utf8_lossy(q.skip(1)) =~= Seq::<char>::empty());
    assert(utf8_lossy(q) =~= seq![replacement_char()]);
    assert(utf8_lossy(p) + seq![replacement_char()] =~= utf8_lossy(p).push(replacement_char()));
}

/// A byte of 0xC0 or above that is not followed by a continuation byte starts no
/// complete character: wherever it stands it reads as exactly one replacement character,
/// and the text around it reads as it would without it.
pub proof fn law_lossy_isolated_lead_byte(p: Seq<u8>, b: u8, q: Seq<u8>)
    requires
        b >= 0xc0,
        q.len() > 0 ==> !(0x80 <= q[0] <= 0xbf),
    ensures
        utf8_lossy(p + seq![b] + q) == utf8_lossy(p) + seq![replacement_char()] + utf8_lossy(q),
{
    let bq = seq![b] + q;
    law_lossy_append(p, bq);
    assert(p + seq![b] + q =~= p + bq);
    lemma_starts_with_char_iff_valid(bq);
    assert(sequence_len(bq) == 1);
    assert(!starts_with_char(bq));
    assert(bq.skip(1) =~= q);
    assert(utf8_lossy(p) + (seq![replacement_char()] + utf8_lossy(q)) =~= utf8_lossy(p) + seq![
        replacement_char(),
    ] + utf8_lossy(q));
}

/// Reversal reads the reversed UTF-8 bytes of the text with replacement; when the text
/// starts with a character above 127, the last byte of the reversed bytes is that
/// character's leading byte, which reads as a replacement character of its own at the end.
pub proof fn law_reversed_text_reads_reversed_bytes(s: Seq<char>)
    ensures
        reversed_text(s) == utf8_lossy(encode_utf8(s).reverse()),
        s.len() > 0 && (s[0] as u32) >= 0x80 ==> {
            &&& reversed_text(s).last() == replacement_char()
            &&& reversed_text(s) == utf8_lossy(encode_utf8(s).reverse().drop_last()).push(
                replacement_char(),
            )
        },
{
    let r = encode_utf8(s).reverse();
    if valid_utf8(r) {
        law_lossy_reads_valid_utf8(r);
    }
    if s.len() > 0 && (s[0] as u32) >= 0x80 {
        let v = s[0] as u32;
        let e = encode_utf8(s);
        let first = encode_scalar(v);
        assert(e == first + encode_utf8(s.drop_first()));
        assert(leading_byte_width_2(v) >= 0xc0 && leading_byte_width_3(v) >= 0xc0
            && leading_byte_width_4(v) >= 0xc0) by (bit_vector);
        assert(first[0] >= 0xc0);
        assert(e[0] == first[0]);
        let b = e[0];
        assert(r.last() == b);
        assert(r =~= r.drop_last().push(b));
        law_lossy_trailing_lead_byte(r.drop_last(), b);
    }
}

} // verus!
