//! Normalization of path templates: the query string is cut off and the rest
//! is percent-decoded.

use crate::scan::{find_byte, first_index, lemma_first_index_is};
use vstd::prelude::*;
use vstd::slice::slice_subrange;
use vstd::string::StringSliceAdditionalSpecFns;
use vstd::utf8::{
    char_is_scalar, char_u32_cast, decode_utf8, encode_scalar, encode_utf8,
    encode_utf8_decode_utf8, encode_utf8_valid_utf8, valid_utf8,
};

verus! {

/// The byte `?`, which starts a query string.
pub const QUERY_MARK: u8 = 0x3f;

/// The byte `%`, which starts a percent-encoded byte.
pub const PERCENT: u8 = 0x25;

/// The value of a hexadecimal digit given as an ASCII byte, if it is one.
pub open spec fn hex_value(b: u8) -> Option<u8> {
    if 0x30 <= b <= 0x39 {
        Some((b - 0x30) as u8)
    } else if 0x41 <= b <= 0x46 {
        Some((b - 0x41 + 10) as u8)
    } else if 0x61 <= b <= 0x66 {
        Some((b - 0x61 + 10) as u8)
    } else {
        None
    }
}

/// Whether `bytes` starts with `%` and two hexadecimal digits.
pub open spec fn starts_with_escape(bytes: Seq<u8>) -> bool {
    &&& bytes.len() >= 3
    &&& bytes[0] == PERCENT
    &&& hex_value(bytes[1]) is Some
    &&& hex_value(bytes[2]) is Some
}

/// Percent-decoding: every `%` followed by two hexadecimal digits becomes the
/// byte that the digits spell; every other byte, a `%` that is not so
/// followed included, stays.
pub open spec fn percent_decoded(bytes: Seq<u8>) -> Seq<u8>
    decreases bytes.len(),
{
    if bytes.len() == 0 {
        bytes
    } else if starts_with_escape(bytes) {
        seq![(hex_value(bytes[1])->0 * 16 + hex_value(bytes[2])->0) as u8] + percent_decoded(
            bytes.skip(3),
        )
    } else {
        seq![bytes[0]] + percent_decoded(bytes.skip(1))
    }
}

/// The text that lossy UTF-8 decoding makes of bytes that are not well-formed
/// UTF-8: what is well-formed is decoded, and each malformed run is replaced
/// by U+FFFD.
pub uninterp spec fn utf8_repaired(bytes: Seq<u8>) -> Seq<char>;

/// The text that lossy UTF-8 decoding makes of `bytes`: the text that they
/// encode where they are well-formed, and a repaired text otherwise.
pub open spec fn utf8_lossy(bytes: Seq<u8>) -> Seq<char> {
    if valid_utf8(bytes) {
        decode_utf8(bytes)
    } else {
        utf8_repaired(bytes)
    }
}

/// What stands before the first `?`.
pub open spec fn without_query(bytes: Seq<u8>) -> Seq<u8> {
    bytes.take(first_index(bytes, QUERY_MARK) as int)
}

/// The normal form of a template: its UTF-8 bytes up to the first `?`,
/// percent-decoded and read as text again.
pub open spec fn normalized(template: Seq<char>) -> Seq<char> {
    utf8_lossy(percent_decoded(without_query(encode_utf8(template))))
}

/// Calls `percent_encoding::percent_decode` on `bytes` and
/// `PercentDecode::decode_utf8_lossy` on what it yields.
///
/// Believed, not proved: the bytes that the decoder yields are
/// `percent_decoded(bytes@)`; the text made of them is the one they encode
/// where they are well-formed UTF-8, and otherwise depends on those bytes
/// alone.
#[verifier::external_body]
fn percent_decode_lossy(bytes: &[u8]) -> (text: String)
    ensures
        valid_utf8(percent_decoded(bytes@)) ==> text@ == decode_utf8(percent_decoded(bytes@)),
        !valid_utf8(percent_decoded(bytes@)) ==> text@ == utf8_repaired(percent_decoded(bytes@)),
{
    percent_encoding::percent_decode(bytes).decode_utf8_lossy().into_owned()
}

/// Puts a path template into normal form: everything from the first `?` on is
/// dropped, and the rest is percent-decoded and read as UTF-8, lossily.
pub fn normalize_url(template: &str) -> (text: String)
    ensures
        text@ == normalized(template@),
{
    let bytes = template.as_bytes();
    let end: usize = find_byte(bytes, 0, QUERY_MARK);
    proof {
        assert(bytes@.skip(0) =~= bytes@);
    }
    percent_decode_lossy(slice_subrange(bytes, 0, end))
}

/// An ASCII byte that is not among the characters of a text is not among the
/// bytes of its UTF-8 encoding either.
pub proof fn lemma_ascii_byte_absent(chars: Seq<char>, b: u8)
    requires
        b < 0x80,
        forall|i: int| 0 <= i < chars.len() ==> chars[i] as u32 != b,
    ensures
        forall|k: int| 0 <= k < encode_utf8(chars).len() ==> encode_utf8(chars)[k] != b,
    decreases chars.len(),
{
    if chars.len() > 0 {
        let scalar = chars[0] as u32;
        let head = encode_scalar(scalar);
        let rest = chars.drop_first();
        char_is_scalar(chars[0]);
        assert(scalar <= 0x7f ==> (scalar & 0x7f) as u8 == scalar) by (bit_vector);
        assert(0xc0u8 | ((scalar >> 6) & 0x1f) as u8 >= 0x80) by (bit_vector);
        assert(0xe0u8 | ((scalar >> 12) & 0x0f) as u8 >= 0x80) by (bit_vector);
        assert(0xf0u8 | ((scalar >> 18) & 0x7) as u8 >= 0x80) by (bit_vector);
        assert(0x80u8 | (scalar & 0x3f) as u8 >= 0x80) by (bit_vector);
        assert(0x80u8 | ((scalar >> 6) & 0x3f) as u8 >= 0x80) by (bit_vector);
        assert(0x80u8 | ((scalar >> 12) & 0x3f) as u8 >= 0x80) by (bit_vector);
        assert(forall|k: int| 0 <= k < head.len() ==> head[k] != b);
        assert forall|i: int| 0 <= i < rest.len() implies rest[i] as u32 != b by {
            assert(rest[i] == chars[i + 1]);
        }
        lemma_ascii_byte_absent(rest, b);
        let tail = encode_utf8(rest);
        let all = encode_utf8(chars);
        assert(all == head + tail);
        assert forall|k: int| 0 <= k < all.len() implies all[k] != b by {
            if k < head.len() {
                assert(all[k] == head[k]);
            } else {
                assert(all[k] == tail[k - head.len()]);
            }
        }
    }
}

/// Bytes that hold no `%` are their own percent-decoding.
pub proof fn lemma_nothing_to_decode(bytes: Seq<u8>)
    requires
        forall|i: int| 0 <= i < bytes.len() ==> bytes[i] != PERCENT,
    ensures
        percent_decoded(bytes) == bytes,
    decreases bytes.len(),
{
    if bytes.len() > 0 {
        let rest = bytes.skip(1);
        assert forall|i: int| 0 <= i < rest.len() implies rest[i] != PERCENT by {
            assert(rest[i] == bytes[i + 1]);
        }
        lemma_nothing_to_decode(rest);
        assert(seq![bytes[0]] + rest =~= bytes);
    }
}

/// A template that holds neither `?` nor `%` is in normal form already.
pub proof fn law_plain_template_is_normal(template: Seq<char>)
    requires
        forall|i: int| 0 <= i < template.len() ==> template[i] != '?' && template[i] != '%',
    ensures
        normalized(template) == template,
{
    let bytes = encode_utf8(template);
    assert forall|i: int| 0 <= i < template.len() implies template[i] as u32 != QUERY_MARK
        && template[i] as u32 != PERCENT by {
        char_u32_cast(template[i], template[i] as u32);
        char_u32_cast('?', '?' as u32);
        char_u32_cast('%', '%' as u32);
    }
    lemma_ascii_byte_absent(template, QUERY_MARK);
    lemma_ascii_byte_absent(template, PERCENT);
    lemma_first_index_is(bytes, QUERY_MARK, bytes.len() as int);
    assert(without_query(bytes) =~= bytes);
    lemma_nothing_to_decode(bytes);
    encode_utf8_valid_utf8(template);
    encode_utf8_decode_utf8(template);
}

} // verus!
