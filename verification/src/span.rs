//! Byte ranges inside one source text.

use vstd::prelude::*;

verus! {

/// A half-open range `[start, end)` of byte offsets into one source text.
///
/// The offset `u32::MAX` is reserved: a span that has it as a bound stands for
/// "no location known".
#[derive(Debug, Clone, Copy)]
pub struct Span {
    pub start: u32,
    pub end: u32,
}

impl Span {
    /// The span from `start` to `end`, as a value of specifications.
    pub open spec fn spec_new(start: u32, end: u32) -> Span {
        Span { start, end }
    }

    /// The span that stands for "no location known".
    pub open spec fn spec_empty() -> Span {
        Span { start: u32::MAX, end: u32::MAX }
    }

    /// Whether the span names a place: neither bound is the reserved offset.
    pub open spec fn spec_is_present(&self) -> bool {
        self.start != u32::MAX && self.end != u32::MAX
    }

    /// The range of bytes from `start` up to, not including, `end`. The bounds are
    /// taken as they are.
    #[verifier::when_used_as_spec(spec_new)]
    pub fn new(start: u32, end: u32) -> (span: Span)
        ensures
            span == Span::spec_new(start, end),
    {
        Span { start, end }
    }

    /// The span that stands for "no location known".
    #[verifier::when_used_as_spec(spec_empty)]
    pub fn empty() -> (span: Span)
        ensures
            span == Span::spec_empty(),
            !span.spec_is_present(),
    {
        Span { start: u32::MAX, end: u32::MAX }
    }

    /// Whether the span names a place.
    #[verifier::when_used_as_spec(spec_is_present)]
    pub fn is_present(&self) -> (present: bool)
        ensures
            present == self.spec_is_present(),
    {
        self.start != u32::MAX && self.end != u32::MAX
    }
}

/// The reserved span is not present, and a span made from two offsets is present
/// exactly when neither of them is the reserved offset.
pub proof fn lemma_span_presence(start: u32, end: u32)
    ensures
        !Span::empty().is_present(),
        Span::new(start, end).is_present() <==> (start != u32::MAX && end != u32::MAX),
{
}

} // verus!
