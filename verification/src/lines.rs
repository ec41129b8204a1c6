//! Lines of a source text, seen as bytes.
//!
//! A text is cut into lines by the line-break byte. The functions here find, for
//! a byte offset, the line around it and that line's number. Offsets may lie
//! beyond the end of the text: nothing is found there, and the text's end closes
//! its last line.

use vstd::prelude::*;

verus! {

/// The byte that ends a line.
pub const LINE_BREAK: u8 = 10;

/// How many line breaks stand at offsets below `pos`.
pub open spec fn breaks_before(bytes: Seq<u8>, pos: int) -> nat
    decreases pos,
{
    if pos <= 0 {
        0
    } else if pos > bytes.len() {
        breaks_before(bytes, bytes.len() as int)
    } else if bytes[pos - 1] == LINE_BREAK {
        breaks_before(bytes, pos - 1) + 1
    } else {
        breaks_before(bytes, pos - 1)
    }
}

/// The number, counted from 1, of the line that holds offset `pos`. A line break
/// belongs to the line that it ends.
pub open spec fn line_number(bytes: Seq<u8>, pos: int) -> nat {
    1 + breaks_before(bytes, pos)
}

/// Where the line that holds offset `pos` begins: just behind the last line
/// break below `pos`, or at 0 where there is none.
pub open spec fn line_start(bytes: Seq<u8>, pos: int) -> int
    decreases pos,
{
    if pos <= 0 {
        0
    } else if pos > bytes.len() {
        line_start(bytes, bytes.len() as int)
    } else if bytes[pos - 1] == LINE_BREAK {
        pos
    } else {
        line_start(bytes, pos - 1)
    }
}

/// Where the line that runs through offset `pos` ends: at the first line break
/// at or behind `pos`, or at the end of the text where there is none.
pub open spec fn line_end(bytes: Seq<u8>, pos: int) -> int
    decreases bytes.len() - pos,
{
    if pos >= bytes.len() {
        bytes.len() as int
    } else if pos >= 0 && bytes[pos] == LINE_BREAK {
        pos
    } else {
        line_end(bytes, pos + 1)
    }
}

/// Whether no line break stands at an offset from `from` up to, not including,
/// `to`. Offsets beyond the text hold nothing, and a range with `to` not behind
/// `from` is empty.
pub open spec fn unbroken(bytes: Seq<u8>, from: int, to: int) -> bool {
    forall|i: int| from <= i < to && 0 <= i < bytes.len() ==> bytes[i] != LINE_BREAK
}

/// There are at most as many line breaks below `pos` as there are offsets.
pub proof fn lemma_breaks_before_bound(bytes: Seq<u8>, pos: int)
    ensures
        breaks_before(bytes, pos) <= pos || pos < 0,
        breaks_before(bytes, pos) <= bytes.len(),
    decreases pos,
{
    if pos <= 0 {
    } else if pos > bytes.len() {
        lemma_breaks_before_bound(bytes, bytes.len() as int);
    } else {
        lemma_breaks_before_bound(bytes, pos - 1);
    }
}

/// `line_start` is the offset behind the last line break below `pos`: it lies
/// inside the text and not behind `pos`, a line break stands right before it
/// unless it is 0, and none stands between it and `pos`.
pub proof fn lemma_line_start(bytes: Seq<u8>, pos: int)
    ensures
        0 <= line_start(bytes, pos) <= bytes.len(),
        pos >= 0 ==> line_start(bytes, pos) <= pos,
        line_start(bytes, pos) == 0 || bytes[line_start(bytes, pos) - 1] == LINE_BREAK,
        unbroken(bytes, line_start(bytes, pos), pos),
    decreases pos,
{
    if pos <= 0 {
    } else if pos > bytes.len() {
        lemma_line_start(bytes, bytes.len() as int);
    } else if bytes[pos - 1] == LINE_BREAK {
    } else {
        lemma_line_start(bytes, pos - 1);
    }
}

/// `line_end` is the offset of the first line break at or behind `pos`: it lies
/// inside the text and not before `pos` (unless `pos` is beyond the end), a line
/// break stands at it unless it is the end of the text, and none stands between
/// `pos` and it.
pub proof fn lemma_line_end(bytes: Seq<u8>, pos: int)
    requires
        0 <= pos,
    ensures
        0 <= line_end(bytes, pos) <= bytes.len(),
        pos <= bytes.len() ==> pos <= line_end(bytes, pos),
        line_end(bytes, pos) == bytes.len() || bytes[line_end(bytes, pos)] == LINE_BREAK,
        unbroken(bytes, pos, line_end(bytes, pos)),
    decreases bytes.len() - pos,
{
    if pos >= bytes.len() {
    } else if bytes[pos] == LINE_BREAK {
    } else {
        lemma_line_end(bytes, pos + 1);
    }
}

/// An offset with no line break between `pos` and it, which is the end of the
/// text or holds a line break, is the `line_end` of `pos`.
pub proof fn lemma_line_end_unique(bytes: Seq<u8>, pos: int, end: int)
    requires
        0 <= pos <= end <= bytes.len(),
        end == bytes.len() || bytes[end] == LINE_BREAK,
        unbroken(bytes, pos, end),
    ensures
        line_end(bytes, pos) == end,
    decreases end - pos,
{
    if pos < end {
        lemma_line_end_unique(bytes, pos + 1, end);
    }
}

/// The line on which a span starts begins no later than the line ends on which
/// the span ends, unless the span is inverted and a line break stands between
/// its end and its start.
pub proof fn lemma_line_of_span(bytes: Seq<u8>, start: int, end: int)
    requires
        0 <= start,
        0 <= end,
        unbroken(bytes, end, start),
    ensures
        line_start(bytes, start) <= line_end(bytes, end),
{
    lemma_line_start(bytes, start);
    lemma_line_end(bytes, end);
}

/// What one pass over a text finds for a span: the number of the line on which
/// the span starts, and the bounds of the line from there to where the span ends.
pub struct LineBounds {
    pub number: u64,
    pub start: usize,
    pub end: usize,
}

/// Scans `bytes` once and finds the line of the span from `span_start` to
/// `span_end`.
pub fn find_line(bytes: &[u8], span_start: u32, span_end: u32) -> (found: LineBounds)
    ensures
        found.number == line_number(bytes@, span_start as int),
        found.start == line_start(bytes@, span_start as int),
        found.end == line_end(bytes@, span_end as int),
{
    let first: usize = span_start as usize;
    let last: usize = span_end as usize;
    let mut number: u64 = 1;
    let mut start_of_line: usize = 0;
    let mut end_of_line: Option<usize> = None;
    let mut i: usize = 0;
    while i < bytes.len()
        invariant
            i <= bytes.len(),
            first == span_start,
            last == span_end,
            number == line_number(bytes@, if i <= first { i as int } else { first as int }),
            start_of_line == line_start(bytes@, if i <= first { i as int } else { first as int }),
            match end_of_line {
                Some(e) => e < i && e == line_end(bytes@, last as int),
                None => unbroken(bytes@, last as int, i as int),
            },
        decreases bytes.len() - i,
    {
        if bytes[i] == LINE_BREAK {
            if i < first {
                proof {
                    lemma_breaks_before_bound(bytes@, i as int);
                }
                number = number + 1;
                start_of_line = i + 1;
            }
            if i >= last && end_of_line.is_none() {
                proof {
                    lemma_line_end_unique(bytes@, last as int, i as int);
                }
                end_of_line = Some(i);
            }
        }
        i = i + 1;
    }
    let end_of_line: usize = match end_of_line {
        Some(e) => e,
        None => {
            proof {
                if last <= bytes.len() {
                    lemma_line_end_unique(bytes@, last as int, bytes@.len() as int);
                }
            }
            bytes.len()
        },
    };
    LineBounds { number, start: start_of_line, end: end_of_line }
}

} // verus!
