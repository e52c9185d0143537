//! Texts as UTF-8.
//!
//! A text is measured and cut by bytes of its UTF-8 form, and a cut may
//! only fall where a character starts. This module holds the offsets at
//! which one does, and the slices between two of them.

use vstd::prelude::*;
use vstd::string::StrSliceExecFns;
use vstd::utf8::{
    decode_utf8, decode_utf8_encode_utf8, encode_utf8, encode_utf8_decode_utf8,
    encode_utf8_valid_utf8, is_char_boundary, is_char_boundary_iff_not_is_continuation_byte,
    is_char_boundary_start_end_of_seq, length_of_first_scalar, pop_first_scalar, valid_utf8,
    valid_utf8_split,
};

verus! {

/// The number of bytes of a text in UTF-8.
pub open spec fn byte_len(s: Seq<char>) -> nat {
    encode_utf8(s).len()
}

/// The number of bytes of a text in UTF-8.
pub fn byte_length(s: &str) -> (n: usize)
    ensures
        n == byte_len(s@),
{
    s.as_bytes().len()
}

/// The last offset at or before `idx` at which a character starts, the
/// end of the bytes counted as one; `idx` is first held within the bytes.
pub open spec fn floor_boundary(bytes: Seq<u8>, idx: int) -> int
    decreases idx,
{
    if idx <= 0 {
        0
    } else if idx >= bytes.len() {
        bytes.len() as int
    } else if is_char_boundary(bytes, idx) {
        idx
    } else {
        floor_boundary(bytes, idx - 1)
    }
}

/// The first offset at or after `idx` at which a character starts, the
/// end of the bytes counted as one; `idx` is first held within the bytes.
pub open spec fn ceil_boundary(bytes: Seq<u8>, idx: int) -> int
    decreases bytes.len() - idx,
{
    if idx >= bytes.len() {
        bytes.len() as int
    } else if idx <= 0 {
        0
    } else if is_char_boundary(bytes, idx) {
        idx
    } else {
        ceil_boundary(bytes, idx + 1)
    }
}

/// The character that starts at offset `at`.
pub open spec fn char_at(bytes: Seq<u8>, at: int) -> char {
    decode_utf8(bytes.subrange(at, bytes.len() as int))[0]
}

/// The text between two offsets.
pub open spec fn text_between(bytes: Seq<u8>, from: int, to: int) -> Seq<char> {
    decode_utf8(bytes.subrange(from, to))
}

/// What `floor_boundary` gives lies within the bytes.
pub proof fn lemma_floor_boundary_within(bytes: Seq<u8>, idx: int)
    ensures
        0 <= floor_boundary(bytes, idx) <= bytes.len(),
    decreases idx,
{
    if 0 < idx < bytes.len() && !is_char_boundary(bytes, idx) {
        lemma_floor_boundary_within(bytes, idx - 1);
    }
}

/// From any offset but the first, `ceil_boundary` goes forward or stays,
/// within the bytes.
pub proof fn lemma_ceil_boundary_advances(bytes: Seq<u8>, idx: int)
    requires
        0 < idx <= bytes.len(),
    ensures
        idx <= ceil_boundary(bytes, idx) <= bytes.len(),
    decreases bytes.len() - idx,
{
    if idx < bytes.len() && !is_char_boundary(bytes, idx) {
        lemma_ceil_boundary_advances(bytes, idx + 1);
    }
}

/// Only the empty text has no bytes.
pub proof fn lemma_byte_len_zero(s: Seq<char>)
    ensures
        byte_len(s) == 0 <==> s.len() == 0,
{
}

/// Behind a byte below 128 a character starts, and at it too.
pub proof fn lemma_boundary_after_ascii(bytes: Seq<u8>, p: int)
    requires
        valid_utf8(bytes),
        0 <= p < bytes.len(),
        bytes[p] < 0x80,
    ensures
        is_char_boundary(bytes, p),
        is_char_boundary(bytes, p + 1),
{
    is_char_boundary_iff_not_is_continuation_byte(bytes, p);
    if p + 1 == bytes.len() {
        is_char_boundary_start_end_of_seq(bytes);
    } else {
        let rest = bytes.subrange(p, bytes.len() as int);
        valid_utf8_split(bytes, p);
        assert(rest[0] == bytes[p]);
        assert(length_of_first_scalar(rest) == 1);
        assert(valid_utf8(pop_first_scalar(rest)));
        assert(is_char_boundary(rest, 1)) by {
            reveal_with_fuel(is_char_boundary, 2);
        }
        is_char_boundary_iff_not_is_continuation_byte(rest, 1);
        assert(rest[1] == bytes[p + 1]);
        is_char_boundary_iff_not_is_continuation_byte(bytes, p + 1);
    }
}

/// Where a character starts in a text, one starts in the part of the text
/// before a later such offset.
pub proof fn lemma_boundary_in_prefix(bytes: Seq<u8>, from: int, to: int)
    requires
        valid_utf8(bytes),
        0 <= from <= to <= bytes.len(),
        is_char_boundary(bytes, from),
        is_char_boundary(bytes, to),
    ensures
        valid_utf8(bytes.subrange(0, to)),
        is_char_boundary(bytes.subrange(0, to), from),
{
    let head = bytes.subrange(0, to);
    valid_utf8_split(bytes, to);
    if from == to {
        is_char_boundary_start_end_of_seq(head);
    } else {
        is_char_boundary_iff_not_is_continuation_byte(bytes, from);
        assert(head[from] == bytes[from]);
        is_char_boundary_iff_not_is_continuation_byte(head, from);
    }
}

/// The bytes between two offsets at which characters start are the bytes
/// of the text between them.
pub proof fn lemma_text_between(bytes: Seq<u8>, from: int, to: int)
    requires
        valid_utf8(bytes),
        0 <= from <= to <= bytes.len(),
        is_char_boundary(bytes, from),
        is_char_boundary(bytes, to),
    ensures
        valid_utf8(bytes.subrange(from, to)),
        encode_utf8(text_between(bytes, from, to)) == bytes.subrange(from, to),
{
    let head = bytes.subrange(0, to);
    lemma_boundary_in_prefix(bytes, from, to);
    valid_utf8_split(head, from);
    assert(head.subrange(from, head.len() as int) =~= bytes.subrange(from, to));
    decode_utf8_encode_utf8(bytes.subrange(from, to));
}

/// Of any four offsets in a row, a character starts at one.
pub proof fn lemma_boundary_within_four(bytes: Seq<u8>, i: int)
    requires
        valid_utf8(bytes),
        0 <= i,
        i + 3 <= bytes.len(),
    ensures
        is_char_boundary(bytes, i) || is_char_boundary(bytes, i + 1) || is_char_boundary(
            bytes,
            i + 2,
        ) || is_char_boundary(bytes, i + 3),
    decreases bytes.len(),
{
    if i > 0 {
        let width = length_of_first_scalar(bytes);
        let rest = pop_first_scalar(bytes);
        assert(1 <= width <= 4 && width <= bytes.len());
        assert(rest.len() == bytes.len() - width);
        if i < width {
            assert(is_char_boundary(bytes, width)) by {
                reveal_with_fuel(is_char_boundary, 2);
            }
        } else {
            lemma_boundary_within_four(rest, i - width);
            reveal_with_fuel(is_char_boundary, 2);
        }
    }
}

/// The offset that `floor_boundary` gives is one at which a character
/// starts, within the bytes, at most `idx` and less than four below it.
pub proof fn lemma_floor_boundary(bytes: Seq<u8>, idx: int)
    requires
        valid_utf8(bytes),
    ensures
        0 <= floor_boundary(bytes, idx) <= bytes.len(),
        0 <= idx ==> floor_boundary(bytes, idx) <= idx,
        idx <= bytes.len() ==> idx - 3 <= floor_boundary(bytes, idx),
        is_char_boundary(bytes, floor_boundary(bytes, idx)),
    decreases idx,
{
    is_char_boundary_start_end_of_seq(bytes);
    if 0 < idx < bytes.len() {
        if !is_char_boundary(bytes, idx) {
            lemma_floor_boundary(bytes, idx - 1);
            if idx >= 3 {
                lemma_boundary_within_four(bytes, idx - 3);
                reveal_with_fuel(floor_boundary, 4);
            }
        }
    }
}

/// The offset that `ceil_boundary` gives is one at which a character
/// starts, within the bytes, at least `idx` and less than four above it.
pub proof fn lemma_ceil_boundary(bytes: Seq<u8>, idx: int)
    requires
        valid_utf8(bytes),
        0 <= idx <= bytes.len(),
    ensures
        idx <= ceil_boundary(bytes, idx) <= bytes.len(),
        ceil_boundary(bytes, idx) <= idx + 3,
        is_char_boundary(bytes, ceil_boundary(bytes, idx)),
    decreases bytes.len() - idx,
{
    is_char_boundary_start_end_of_seq(bytes);
    if 0 < idx < bytes.len() {
        if !is_char_boundary(bytes, idx) {
            lemma_ceil_boundary(bytes, idx + 1);
            if idx + 3 <= bytes.len() {
                lemma_boundary_within_four(bytes, idx);
                reveal_with_fuel(ceil_boundary, 4);
            }
        }
    }
}

/// No offset at which a character starts lies between `idx` and what
/// `floor_boundary` gives for it.
pub proof fn lemma_floor_boundary_is_last(bytes: Seq<u8>, idx: int, at: int)
    requires
        valid_utf8(bytes),
        0 <= at <= idx,
        at <= bytes.len(),
        is_char_boundary(bytes, at),
    ensures
        at <= floor_boundary(bytes, idx),
    decreases idx,
{
    if 0 < idx < bytes.len() && !is_char_boundary(bytes, idx) {
        lemma_floor_boundary_is_last(bytes, idx - 1, at);
    }
}

/// No offset at which a character starts lies between `idx` and what
/// `ceil_boundary` gives for it.
pub proof fn lemma_ceil_boundary_is_first(bytes: Seq<u8>, idx: int, at: int)
    requires
        valid_utf8(bytes),
        0 <= idx <= at <= bytes.len(),
        is_char_boundary(bytes, at),
    ensures
        ceil_boundary(bytes, idx) <= at,
    decreases bytes.len() - idx,
{
    if 0 < idx < bytes.len() && !is_char_boundary(bytes, idx) {
        lemma_ceil_boundary_is_first(bytes, idx + 1, at);
    }
}

/// The last offset at or before `idx` at which a character of `text`
/// starts.
pub fn floor_char_boundary(text: &str, idx: usize) -> (r: usize)
    ensures
        r == floor_boundary(encode_utf8(text@), idx as int),
        r <= idx,
        r <= byte_len(text@),
        is_char_boundary(encode_utf8(text@), r as int),
{
    let len = text.as_bytes().len();
    proof {
        encode_utf8_valid_utf8(text@);
        lemma_floor_boundary(encode_utf8(text@), idx as int);
    }
    let mut at: usize = if idx < len {
        idx
    } else {
        len
    };
    while at > 0 && !text.is_char_boundary(at)
        invariant
            at <= len,
            len == encode_utf8(text@).len(),
            floor_boundary(encode_utf8(text@), idx as int) == floor_boundary(
                encode_utf8(text@),
                at as int,
            ),
        decreases at,
    {
        proof {
            encode_utf8_valid_utf8(text@);
            is_char_boundary_start_end_of_seq(encode_utf8(text@));
        }
        at -= 1;
    }
    at
}

/// The first offset at or after `idx` at which a character of `text`
/// starts.
pub fn ceil_char_boundary(text: &str, idx: usize) -> (r: usize)
    ensures
        r == ceil_boundary(encode_utf8(text@), idx as int),
        r <= byte_len(text@),
        idx <= byte_len(text@) ==> idx <= r,
        is_char_boundary(encode_utf8(text@), r as int),
{
    let len = text.as_bytes().len();
    proof {
        encode_utf8_valid_utf8(text@);
        if idx <= len {
            lemma_ceil_boundary(encode_utf8(text@), idx as int);
        } else {
            is_char_boundary_start_end_of_seq(encode_utf8(text@));
        }
    }
    let mut at: usize = if idx < len {
        idx
    } else {
        len
    };
    while at < len && !text.is_char_boundary(at)
        invariant
            at <= len,
            len == encode_utf8(text@).len(),
            ceil_boundary(encode_utf8(text@), idx as int) == ceil_boundary(
                encode_utf8(text@),
                at as int,
            ),
        decreases len - at,
    {
        proof {
            encode_utf8_valid_utf8(text@);
            is_char_boundary_start_end_of_seq(encode_utf8(text@));
        }
        at += 1;
    }
    at
}

/// The part of a text between two offsets at which characters start.
pub fn slice_between(text: &str, from: usize, to: usize) -> (r: &str)
    requires
        from <= to <= byte_len(text@),
        is_char_boundary(encode_utf8(text@), from as int),
        is_char_boundary(encode_utf8(text@), to as int),
    ensures
        r@ == text_between(encode_utf8(text@), from as int, to as int),
        encode_utf8(r@) == encode_utf8(text@).subrange(from as int, to as int),
{
    proof {
        encode_utf8_valid_utf8(text@);
        lemma_boundary_in_prefix(encode_utf8(text@), from as int, to as int);
    }
    let (head, _tail) = text.split_at(to);
    let (_skipped, part) = head.split_at(from);
    proof {
        encode_utf8_decode_utf8(part@);
        assert(encode_utf8(part@) =~= encode_utf8(text@).subrange(from as int, to as int));
    }
    part
}

/// The character of a text that starts at an offset.
pub fn char_from(text: &str, at: usize) -> (c: char)
    requires
        at < byte_len(text@),
        is_char_boundary(encode_utf8(text@), at as int),
    ensures
        c == char_at(encode_utf8(text@), at as int),
{
    let (_head, rest) = text.split_at(at);
    proof {
        encode_utf8_decode_utf8(rest@);
        assert(encode_utf8(rest@).len() > 0);
    }
    rest.get_char(0)
}

} // verus!
