//! Places in registered texts, and values that remember their place.

use crate::span::Span;
use crate::table::FileRef;
use vstd::prelude::*;

verus! {

/// A span in one registered text.
#[derive(Debug, Clone, Copy)]
pub struct Loc {
    pub span: Span,
    pub file: FileRef,
}

impl Loc {
    /// The place `span` in the text `file`.
    pub fn new(span: Span, file: FileRef) -> (loc: Loc)
        ensures
            loc == (Loc { span, file }),
    {
        Loc { span, file }
    }
}

/// A value together with the place it was read from.
#[derive(Debug, Clone, Copy)]
pub struct Located<T> {
    pub item: T,
    pub loc: Loc,
}

impl<T> Located<T> {
    /// `item`, read from `span` in the text `file`.
    pub fn new(item: T, file: FileRef, span: Span) -> (located: Located<T>)
        ensures
            located == (Located { item, loc: Loc { span, file } }),
    {
        Located { loc: Loc { file, span }, item }
    }
}

impl<T: Clone> Located<T> {
    /// Applies `func` to a clone of the value and keeps the place. `func` never
    /// sees the place: the result holds it as it was.
    pub fn map<R>(&self, func: impl FnOnce(T) -> R) -> (mapped: Located<R>)
        requires
            forall|copy: T|
                call_ensures(T::clone, (&self.item,), copy) ==> call_requires(func, (copy,)),
        ensures
            mapped.loc == self.loc,
            exists|copy: T|
                call_ensures(T::clone, (&self.item,), copy) && call_ensures(
                    func,
                    (copy,),
                    mapped.item,
                ),
    {
        Located { item: func(self.item.clone()), loc: self.loc }
    }
}

} // verus!
