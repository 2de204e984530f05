//! The comment region of a file: a fixed run of bytes that holds UTF-8 text, which either
//! ends at the first zero byte or is padded with spaces up to the end of the region.

use vstd::prelude::*;
use vstd::utf8::{decode_utf8, encode_scalar, encode_utf8, is_scalar, valid_utf8};
use vstd::utf8::{char_is_scalar, char_u32_cast, decode_utf8_encode_utf8, decode_utf8_split};
use vstd::utf8::{encode_utf8_decode_utf8, encode_utf8_valid_utf8, is_ascii_chars_encode_utf8};
use vstd::utf8::{is_char_boundary_iff_not_is_continuation_byte, valid_utf8_concat};
use vstd::utf8::{is_char_boundary_start_end_of_seq, valid_utf8_split};
use crate::error::DecodeError;
use crate::layout::SPACE;

verus! {

/// The first index from `start` on at which `region` holds a zero byte, if there is one.
pub open spec fn first_zero_from(region: Seq<u8>, start: int) -> Option<int>
    decreases region.len() - start,
{
    if start < 0 || start >= region.len() {
        None
    } else if region[start] == 0 {
        Some(start)
    } else {
        first_zero_from(region, start + 1)
    }
}

/// The index of the zero byte that ends the comment, if the region holds a zero byte.
pub open spec fn terminator_position(region: Seq<u8>) -> Option<int> {
    first_zero_from(region, 0)
}

/// The number of spaces that stand next to each other directly before index `end`.
pub open spec fn spaces_before(region: Seq<u8>, end: int) -> nat
    decreases end,
{
    if 0 < end <= region.len() && region[end - 1] == SPACE {
        1 + spaces_before(region, end - 1)
    } else {
        0
    }
}

/// The number of spaces with which the region ends.
pub open spec fn trailing_spaces(region: Seq<u8>) -> nat {
    spaces_before(region, region.len() as int)
}

/// Whether the comment ends at a zero byte: whether the region holds one anywhere.
pub open spec fn is_zero_terminated(region: Seq<u8>) -> bool {
    region.contains(0u8)
}

/// The number of bytes of the comment itself: up to the zero byte if there is one, else up to
/// the padding.
pub open spec fn comment_length(region: Seq<u8>) -> nat {
    match terminator_position(region) {
        Some(position) => position as nat,
        None => (region.len() - trailing_spaces(region)) as nat,
    }
}

/// The region with its padding turned into termination: the first space of the padding
/// becomes a zero byte. A region that holds a zero byte, or that does not end in a space,
/// stays as it is.
pub open spec fn zero_terminated(region: Seq<u8>) -> Seq<u8> {
    if is_zero_terminated(region) || trailing_spaces(region) == 0 {
        region
    } else {
        region.update(region.len() - trailing_spaces(region), 0u8)
    }
}

/// The region with its termination turned into padding: spaces from the first zero byte to
/// the end. A region without a zero byte stays as it is.
pub open spec fn padded(region: Seq<u8>) -> Seq<u8> {
    match terminator_position(region) {
        Some(position) => Seq::new(
            region.len(),
            |i: int|
                if i < position {
                    region[i]
                } else {
                    SPACE
                },
        ),
        None => region,
    }
}

/// The region after `text` was stored in it: the bytes of `text` as far as they fit, then
/// either one zero byte, with what follows it left as it was, or spaces up to the end.
pub open spec fn with_text(region: Seq<u8>, text: Seq<u8>, zero_terminated: bool) -> Seq<u8> {
    Seq::new(
        region.len(),
        |i: int|
            if i < text.len() {
                text[i]
            } else if !zero_terminated {
                SPACE
            } else if i == text.len() {
                0u8
            } else {
                region[i]
            },
    )
}

/// The bytes of the comment: those before the zero byte if there is one; else the whole
/// region, without the spaces at its end where `trim` is set.
pub open spec fn text_bytes(region: Seq<u8>, trim: bool) -> Seq<u8> {
    match terminator_position(region) {
        Some(position) => region.take(position),
        None => if trim {
            region.take(region.len() - trailing_spaces(region))
        } else {
            region
        },
    }
}

/// The comment as text, or the error for bytes that are not UTF-8.
pub open spec fn text(region: Seq<u8>, trim: bool) -> Result<Seq<char>, DecodeError> {
    if valid_utf8(text_bytes(region, trim)) {
        Ok(decode_utf8(text_bytes(region, trim)))
    } else {
        Err(DecodeError::InvalidCommentEncoding)
    }
}

/// What [`first_zero_from`] finds is the first zero byte from `start` on, and it finds none
/// only where there is none.
pub proof fn lemma_first_zero_from(region: Seq<u8>, start: int)
    requires
        0 <= start <= region.len(),
    ensures
        match first_zero_from(region, start) {
            Some(position) => {
                &&& start <= position < region.len()
                &&& region[position] == 0
                &&& forall|j: int| start <= j < position ==> region[j] != 0
            },
            None => forall|j: int| start <= j < region.len() ==> region[j] != 0,
        },
    decreases region.len() - start,
{
    if start < region.len() && region[start] != 0 {
        lemma_first_zero_from(region, start + 1);
    }
}

/// The terminator is at `position` if a zero byte stands there and none stands before it.
pub proof fn lemma_terminator_at(region: Seq<u8>, position: int)
    requires
        0 <= position < region.len(),
        region[position] == 0,
        forall|j: int| 0 <= j < position ==> region[j] != 0,
    ensures
        terminator_position(region) == Some(position),
{
    lemma_first_zero_from(region, 0);
}

/// A region has a terminator exactly if it holds a zero byte.
pub proof fn lemma_terminator_iff_zero(region: Seq<u8>)
    ensures
        terminator_position(region) is Some <==> is_zero_terminated(region),
{
    lemma_first_zero_from(region, 0);
}

/// What [`spaces_before`] counts is the whole run of spaces that ends before `end`.
pub proof fn lemma_spaces_before(region: Seq<u8>, end: int)
    requires
        0 <= end <= region.len(),
    ensures
        spaces_before(region, end) <= end,
        forall|j: int| end - spaces_before(region, end) <= j < end ==> region[j] == SPACE,
        spaces_before(region, end) < end ==> region[end - spaces_before(region, end) - 1]
            != SPACE,
    decreases end,
{
    if 0 < end && region[end - 1] == SPACE {
        lemma_spaces_before(region, end - 1);
    }
}

/// The region ends in exactly `count` spaces if its last `count` bytes are spaces and the
/// byte before them, if there is one, is none.
pub proof fn lemma_trailing_spaces_are(region: Seq<u8>, count: int)
    requires
        0 <= count <= region.len(),
        forall|j: int| region.len() - count <= j < region.len() ==> region[j] == SPACE,
        count < region.len() ==> region[region.len() - count - 1] != SPACE,
    ensures
        trailing_spaces(region) == count,
{
    lemma_spaces_before(region, region.len() as int);
}

/// Turning termination into padding a second time changes nothing.
pub proof fn lemma_padded_idempotent(region: Seq<u8>)
    ensures
        padded(padded(region)) == padded(region),
{
    lemma_first_zero_from(region, 0);
    lemma_first_zero_from(padded(region), 0);
}

/// Turning padding into termination a second time changes nothing.
pub proof fn lemma_zero_terminated_idempotent(region: Seq<u8>)
    ensures
        zero_terminated(zero_terminated(region)) == zero_terminated(region),
{
    let once = zero_terminated(region);
    if !is_zero_terminated(region) && trailing_spaces(region) != 0 {
        lemma_spaces_before(region, region.len() as int);
        assert(once[region.len() - trailing_spaces(region)] == 0);
        assert(is_zero_terminated(once));
    }
}

/// The length of a comment is the number of its bytes without padding.
pub proof fn lemma_comment_length_is_trimmed_length(region: Seq<u8>)
    ensures
        comment_length(region) == text_bytes(region, true).len(),
        comment_length(region) <= region.len(),
{
    lemma_first_zero_from(region, 0);
    lemma_spaces_before(region, region.len() as int);
}

/// Turning the padding of a comment into termination keeps the comment: what was read with
/// the padding left out is read either way afterwards.
pub proof fn lemma_zero_terminated_keeps_text(region: Seq<u8>, trim: bool)
    requires
        !is_zero_terminated(region),
        trailing_spaces(region) > 0,
    ensures
        is_zero_terminated(zero_terminated(region)),
        text_bytes(zero_terminated(region), trim) == text_bytes(region, true),
        comment_length(zero_terminated(region)) == comment_length(region),
{
    let count = trailing_spaces(region);
    let made = zero_terminated(region);
    lemma_spaces_before(region, region.len() as int);
    lemma_first_zero_from(region, 0);
    assert(made[region.len() - count] == 0);
    assert forall|j: int| 0 <= j < region.len() - count implies made[j] != 0 by {
        assert(region.contains(region[j]));
    }
    lemma_terminator_at(made, region.len() - count);
    assert(made.take(region.len() - count) =~= region.take(region.len() - count));
}

/// The UTF-8 form of a scalar begins with a zero byte if the scalar is zero, and holds no
/// zero byte otherwise.
proof fn lemma_scalar_zero_byte(scalar: u32)
    requires
        is_scalar(scalar),
    ensures
        scalar == 0 ==> encode_scalar(scalar) =~= seq![0u8],
        scalar != 0 ==> !encode_scalar(scalar).contains(0u8),
{
    assert(scalar <= 0x7F ==> ((scalar & 0x7F) as u8 == 0 <==> scalar == 0)) by (bit_vector);
    assert(0xC0u8 | ((scalar >> 6) & 0x1F) as u8 != 0) by (bit_vector);
    assert(0xE0u8 | ((scalar >> 12) & 0x0F) as u8 != 0) by (bit_vector);
    assert(0xF0u8 | ((scalar >> 18) & 0x7) as u8 != 0) by (bit_vector);
    assert(0x80u8 | (scalar & 0x3F) as u8 != 0) by (bit_vector);
    assert(0x80u8 | ((scalar >> 6) & 0x3F) as u8 != 0) by (bit_vector);
    assert(0x80u8 | ((scalar >> 12) & 0x3F) as u8 != 0) by (bit_vector);
}

/// The UTF-8 form of a text holds a zero byte exactly if the text holds the character NUL.
pub proof fn lemma_zero_byte_iff_nul(chars: Seq<char>)
    ensures
        encode_utf8(chars).contains(0u8) <==> chars.contains('\0'),
    decreases chars.len(),
{
    if chars.len() > 0 {
        let head = encode_scalar(chars[0] as u32);
        let rest = chars.drop_first();
        let bytes = encode_utf8(chars);
        lemma_zero_byte_iff_nul(rest);
        char_is_scalar(chars[0]);
        char_u32_cast(chars[0], chars[0] as u32);
        lemma_scalar_zero_byte(chars[0] as u32);
        assert(bytes == head + encode_utf8(rest));
        if bytes.contains(0u8) {
            let i = choose|i: int| 0 <= i < bytes.len() && bytes[i] == 0u8;
            if i < head.len() {
                assert(head[i] == 0u8);
                assert(chars[0] == '\0');
            } else {
                assert(encode_utf8(rest)[i - head.len()] == 0u8);
                let j = choose|j: int| 0 <= j < rest.len() && rest[j] == '\0';
                assert(chars[j + 1] == '\0');
            }
        }
        if chars.contains('\0') {
            let j = choose|j: int| 0 <= j < chars.len() && chars[j] == '\0';
            if j == 0 {
                assert(bytes[0] == 0u8);
            } else {
                assert(rest[j - 1] == '\0');
                let k = choose|k: int|
                    0 <= k < encode_utf8(rest).len() && encode_utf8(rest)[k] == 0u8;
                assert(bytes[head.len() + k] == 0u8);
            }
        }
    }
}

/// Text that is stored with a terminator is read back as it was, provided that it fits the
/// region and does not hold the character NUL, at which it would else be cut.
pub proof fn lemma_stored_text_is_read_back(region: Seq<u8>, chars: Seq<char>)
    requires
        encode_utf8(chars).len() <= region.len(),
        !chars.contains('\0'),
    ensures
        text(with_text(region, encode_utf8(chars), true), false) == Ok::<Seq<char>, DecodeError>(
            chars,
        ),
{
    let bytes = encode_utf8(chars);
    let stored = with_text(region, bytes, true);
    lemma_zero_byte_iff_nul(chars);
    assert forall|j: int| 0 <= j < bytes.len() implies stored[j] != 0 by {
        assert(bytes[j] == stored[j]);
    }
    if bytes.len() < region.len() {
        lemma_terminator_at(stored, bytes.len() as int);
        assert(stored.take(bytes.len() as int) =~= bytes);
    } else {
        lemma_first_zero_from(stored, 0);
        assert(stored =~= bytes);
    }
    assert(text_bytes(stored, false) == bytes);
    encode_utf8_valid_utf8(chars);
    encode_utf8_decode_utf8(chars);
}

/// The UTF-8 form of a text that ends in a space ends in the byte of a space.
proof fn lemma_encoded_space_at_end(chars: Seq<char>)
    requires
        chars.len() > 0,
        chars.last() == ' ',
    ensures
        encode_utf8(chars).len() > 0,
        encode_utf8(chars).last() == SPACE,
    decreases chars.len(),
{
    let scalar: u32 = chars[0] as u32;
    char_is_scalar(chars[0]);
    if chars.len() == 1 {
        assert(chars.drop_first() =~= Seq::<char>::empty());
        assert(encode_utf8(chars.drop_first()) =~= Seq::<u8>::empty());
        assert((0x20u32 & 0x7F) as u8 == 0x20u8) by (bit_vector);
        assert(encode_scalar(scalar) =~= seq![SPACE]);
        assert(encode_utf8(chars) =~= seq![SPACE]);
    } else {
        assert(chars.drop_first().last() == ' ');
        lemma_encoded_space_at_end(chars.drop_first());
    }
}

/// Leaving out the spaces at the end of a run of bytes leaves out exactly the spaces at the
/// end of the text that the bytes hold: the rest is UTF-8 exactly if the whole is, and then
/// the whole text is the rest, which does not end in a space, followed by as many spaces.
pub proof fn lemma_trimmed_text(bytes: Seq<u8>)
    ensures
        valid_utf8(bytes.take(bytes.len() - trailing_spaces(bytes))) <==> valid_utf8(bytes),
        valid_utf8(bytes) ==> {
            let rest = decode_utf8(bytes.take(bytes.len() - trailing_spaces(bytes)));
            &&& decode_utf8(bytes) == rest + Seq::new(trailing_spaces(bytes), |i: int| ' ')
            &&& rest.len() > 0 ==> rest.last() != ' '
        },
{
    let count = trailing_spaces(bytes);
    let kept = bytes.len() - count;
    let front = bytes.take(kept);
    let back = bytes.subrange(kept, bytes.len() as int);
    let spaces = Seq::new(count, |i: int| ' ');
    lemma_spaces_before(bytes, bytes.len() as int);
    assert(bytes =~= front + back);
    assert(front =~= bytes.subrange(0, kept));
    is_ascii_chars_encode_utf8(spaces);
    assert(encode_utf8(spaces) =~= back);
    encode_utf8_valid_utf8(spaces);
    encode_utf8_decode_utf8(spaces);
    if valid_utf8(front) {
        valid_utf8_concat(front, back);
    }
    if valid_utf8(bytes) {
        if count > 0 {
            is_char_boundary_iff_not_is_continuation_byte(bytes, kept);
        } else {
            is_char_boundary_start_end_of_seq(bytes);
        }
        valid_utf8_split(bytes, kept);
        decode_utf8_split(bytes, kept);
        let rest = decode_utf8(front);
        if rest.len() > 0 && rest.last() == ' ' {
            decode_utf8_encode_utf8(front);
            lemma_encoded_space_at_end(rest);
            assert(bytes[kept - 1] == front.last());
        }
    }
}

/// Text that is stored with padding is read back as it was when the padding is left out,
/// provided that it fits the region, does not hold the character NUL and does not end in a
/// space, which would else count as padding.
pub proof fn lemma_padded_text_is_read_back(region: Seq<u8>, chars: Seq<char>)
    requires
        encode_utf8(chars).len() <= region.len(),
        !chars.contains('\0'),
        chars.len() > 0 ==> chars.last() != ' ',
    ensures
        text(with_text(region, encode_utf8(chars), false), true) == Ok::<Seq<char>, DecodeError>(
            chars,
        ),
{
    let bytes = encode_utf8(chars);
    let stored = with_text(region, bytes, false);
    lemma_zero_byte_iff_nul(chars);
    encode_utf8_valid_utf8(chars);
    encode_utf8_decode_utf8(chars);
    assert forall|j: int| 0 <= j < stored.len() implies stored[j] != 0 by {
        if j < bytes.len() {
            assert(bytes[j] == stored[j]);
        }
    }
    lemma_first_zero_from(stored, 0);
    if bytes.len() > 0 && bytes.last() == SPACE {
        lemma_trimmed_text(bytes);
        lemma_spaces_before(bytes, bytes.len() as int);
        assert(chars.last() == ' ');
    }
    lemma_trailing_spaces_are(stored, region.len() - bytes.len());
    assert(stored.take(bytes.len() as int) =~= bytes);
}

/// `String::from_utf8` of the standard library, with the reason for a failure dropped: it
/// accepts exactly the byte sequences that are valid UTF-8, and the text it gives is made of
/// the bytes it was given.
#[verifier::external_body]
pub(crate) fn string_from_utf8(bytes: Vec<u8>) -> (text: Option<String>)
    ensures
        text is Some <==> valid_utf8(bytes@),
        text matches Some(s) ==> encode_utf8(s@) == bytes@,
{
    match String::from_utf8(bytes) {
        Ok(text) => Some(text),
        Err(_) => None,
    }
}

} // verus!
