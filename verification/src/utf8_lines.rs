//! Line bounds in UTF-8 text fall between characters.

use crate::lines::{lemma_line_end, lemma_line_start, line_end, line_start};
use vstd::prelude::*;
use vstd::utf8::*;

verus! {

/// In well-formed UTF-8 a byte below 0x80 is a character of its own: a character
/// begins at it, and the next one right behind it.
pub proof fn lemma_boundaries_of_single_byte(bytes: Seq<u8>, i: int)
    requires
        valid_utf8(bytes),
        0 <= i < bytes.len(),
        bytes[i] < 0x80,
    ensures
        is_char_boundary(bytes, i),
        is_char_boundary(bytes, i + 1),
{
    is_char_boundary_iff_not_is_continuation_byte(bytes, i);
    if i + 1 == bytes.len() {
        is_char_boundary_start_end_of_seq(bytes);
    } else {
        // The text from `i` on is well formed and begins with a character of one
        // byte. What follows that byte is well formed too, so it begins with the
        // first byte of a character.
        valid_utf8_split(bytes, i);
        let tail = bytes.subrange(i, bytes.len() as int);
        let rest = bytes.subrange(i + 1, bytes.len() as int);
        assert(pop_first_scalar(tail) =~= rest);
        assert(valid_utf8(tail) && valid_utf8(rest));
        assert(valid_first_scalar(rest));
        is_char_boundary_iff_is_leading_byte(bytes, i + 1);
    }
}

/// The line around any two offsets of a well-formed UTF-8 text begins and ends
/// between characters.
pub proof fn lemma_line_bounds_are_char_boundaries(bytes: Seq<u8>, from: int, to: int)
    requires
        valid_utf8(bytes),
        0 <= to,
    ensures
        is_char_boundary(bytes, line_start(bytes, from)),
        is_char_boundary(bytes, line_end(bytes, to)),
{
    lemma_line_start(bytes, from);
    lemma_line_end(bytes, to);
    is_char_boundary_start_end_of_seq(bytes);
    let start = line_start(bytes, from);
    if start != 0 {
        lemma_boundaries_of_single_byte(bytes, start - 1);
    }
    let end = line_end(bytes, to);
    if end != bytes.len() {
        lemma_boundaries_of_single_byte(bytes, end);
    }
}

/// A character boundary of a text is one of each prefix that reaches it and ends
/// between characters itself.
pub proof fn lemma_boundary_in_prefix(bytes: Seq<u8>, at: int, cut: int)
    requires
        valid_utf8(bytes),
        0 <= at <= cut <= bytes.len(),
        is_char_boundary(bytes, at),
        is_char_boundary(bytes, cut),
    ensures
        valid_utf8(bytes.subrange(0, cut)),
        is_char_boundary(bytes.subrange(0, cut), at),
{
    let head = bytes.subrange(0, cut);
    valid_utf8_split(bytes, cut);
    if at == cut {
        is_char_boundary_start_end_of_seq(head);
    } else {
        is_char_boundary_iff_not_is_continuation_byte(bytes, at);
        is_char_boundary_iff_not_is_continuation_byte(head, at);
    }
}

} // verus!
