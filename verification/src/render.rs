//! Excerpts: the source line of a place, with carets under the place.
//!
//! An excerpt has two lines. The first is the line number in a margin, right
//! aligned in three characters and closed by `" |"`, and then the source line as
//! it stands. The second is as many spaces as the margin is wide, then one space
//! for each byte of the line before the span and one caret for each byte of the
//! span.

use crate::lines::{
    find_line, lemma_breaks_before_bound, lemma_line_of_span, lemma_line_start, line_end,
    line_number, line_start, unbroken,
};
use crate::loc::Loc;
use crate::span::Span;
use crate::table::{FileSource, FileTable};
use crate::text::{decimal, push_line_number, push_repeated, repeated, right_aligned};
use crate::utf8_lines::{lemma_boundary_in_prefix, lemma_line_bounds_are_char_boundaries};
use vstd::prelude::*;
use vstd::string::*;
use vstd::utf8::*;

verus! {

/// The margin in front of a source line: its number, right-aligned in three
/// characters, and `" |"`.
pub open spec fn margin(number: nat) -> Seq<char> {
    right_aligned(decimal(number), 3) + seq![' ', '|']
}

/// The line under a source line: five spaces for the margin, `column` spaces up
/// to the place, and `width` carets under it.
pub open spec fn underline(column: nat, width: nat) -> Seq<char> {
    repeated(' ', 5 + column) + repeated('^', width)
}

/// How many bytes a span covers; none if its end is not behind its start.
pub open spec fn span_width(span: Span) -> nat {
    if span.start < span.end {
        (span.end - span.start) as nat
    } else {
        0
    }
}

/// Whether a text has a line for `span`: no line break stands between the
/// span's end and its start. That is so of every span whose start is not behind
/// its end. The line of any other span would end before it begins.
pub open spec fn has_line(content: Seq<char>, span: Span) -> bool {
    unbroken(encode_utf8(content), span.end as int, span.start as int)
}

/// The excerpt of `content` for `span`. Offsets count the bytes of the text in
/// UTF-8; `line_offset` is added to the line number that is shown.
pub open spec fn excerpt(content: Seq<char>, line_offset: nat, span: Span) -> Seq<char> {
    let bytes = encode_utf8(content);
    let start = line_start(bytes, span.start as int);
    let end = line_end(bytes, span.end as int);
    margin(line_number(bytes, span.start as int) + line_offset) + decode_utf8(
        bytes.subrange(start, end),
    ) + seq!['\n'] + underline((span.start - start) as nat, span_width(span))
}

/// The part of `text` from byte `from` up to byte `to`, both between characters.
pub(crate) fn slice_bytes<'a>(text: &'a str, from: usize, to: usize) -> (part: &'a str)
    requires
        from <= to <= text.spec_bytes().len(),
        is_char_boundary(text.spec_bytes(), from as int),
        is_char_boundary(text.spec_bytes(), to as int),
    ensures
        part@ == decode_utf8(text.spec_bytes().subrange(from as int, to as int)),
{
    let ghost bytes = text.spec_bytes();
    proof {
        encode_utf8_valid_utf8(text@);
        lemma_boundary_in_prefix(bytes, from as int, to as int);
    }
    let (head, _) = text.split_at(to);
    let (_, part) = head.split_at(from);
    proof {
        assert(part.spec_bytes() =~= bytes.subrange(from as int, to as int));
        encode_utf8_decode_utf8(part@);
    }
    part
}

/// Renders the excerpt of `content` for `span`, with `line_offset` added to the
/// line number.
pub fn render_excerpt(content: &str, line_offset: u32, span: Span) -> (text: String)
    requires
        has_line(content@, span),
    ensures
        text@ == excerpt(content@, line_offset as nat, span),
{
    let bytes = content.as_bytes();
    let found = find_line(bytes, span.start, span.end);
    proof {
        encode_utf8_valid_utf8(content@);
        lemma_line_start(bytes@, span.start as int);
        lemma_line_of_span(bytes@, span.start as int, span.end as int);
        lemma_breaks_before_bound(bytes@, span.start as int);
        lemma_line_bounds_are_char_boundaries(bytes@, span.start as int, span.end as int);
        reveal_strlit(" |");
        reveal_strlit("\n     ");
        reveal_strlit(" ");
        reveal_strlit("^");
    }
    let line = slice_bytes(content, found.start, found.end);
    let column: usize = span.start as usize - found.start;
    let width: usize = if span.start < span.end {
        (span.end - span.start) as usize
    } else {
        0
    };
    let mut text = String::new();
    push_line_number(&mut text, found.number + line_offset as u64);
    text.append(" |");
    text.append(line);
    text.append("\n     ");
    push_repeated(&mut text, " ", column);
    push_repeated(&mut text, "^", width);
    text
}

impl FileTable {
    /// Whether the table can render `loc`: its text is registered and has a line
    /// for its span.
    pub open spec fn renders(&self, loc: Loc) -> bool {
        self.has(loc.file) && has_line(self.file(loc.file).content@, loc.span)
    }

    /// The excerpt for `loc`, or `None` if its span stands for "no location". An
    /// interactive line counts its lines from its own number on.
    pub fn get_line(&self, loc: Loc) -> (rendered: Option<String>)
        requires
            loc.span.is_present() ==> self.renders(loc),
        ensures
            match rendered {
                Some(text) => loc.span.is_present() && text@ == excerpt(
                    self.file(loc.file).content@,
                    self.file(loc.file).line_offset(),
                    loc.span,
                ),
                None => !loc.span.is_present(),
            },
    {
        if !loc.span.is_present() {
            return None;
        }
        let file = self.get(loc.file);
        let line_offset: u32 = match &file.source {
            FileSource::Repl(number) => *number,
            FileSource::File(_) => 0,
        };
        Some(render_excerpt(file.content.as_str(), line_offset, loc.span))
    }
}

} // verus!
