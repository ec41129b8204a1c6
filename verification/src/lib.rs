//! Source locations for a language front end.
//!
//! A [`FileTable`] owns every source text of a session, files and interactively
//! entered lines alike, and hands out [`FileRef`] handles for them. A [`Span`] is
//! a range of byte offsets in one such text, a [`Loc`] a span together with the
//! handle of its text, and [`Located`] a value together with the place it came
//! from. Given a `Loc`, the table renders the source line with a row of carets
//! under the bytes that the span covers.

pub mod lines;
pub mod loc;
pub mod render;
pub mod span;
pub mod table;
pub mod text;
pub mod utf8_lines;

pub use loc::{Loc, Located};
pub use span::Span;
pub use table::{File, FileRef, FileSource, FileTable};
