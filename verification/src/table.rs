//! The registry of source texts.
//!
//! A [`FileTable`] is a list that only grows: a text is registered once, gets the
//! next position as its handle, and stays there unchanged. Lines entered
//! interactively are numbered among themselves, from 0, in the order of their
//! entry, whatever files are registered in between.

use std::path::PathBuf;
use vstd::prelude::*;

verus! {

/// `std::path::PathBuf`. The table stores and returns paths and never looks
/// inside one, so a path is an opaque value here.
#[verifier::external_type_specification]
#[verifier::external_body]
pub struct ExPathBuf(std::path::PathBuf);

/// Where a source text came from.
#[derive(Debug, PartialEq)]
pub enum FileSource {
    /// A file on disk, by its path.
    File(PathBuf),
    /// A line entered interactively, with its number among such lines.
    Repl(u32),
}

/// A handle to one text of a [`FileTable`], meaningful only for the table that
/// issued it.
#[derive(Debug, Copy, Clone, PartialEq, Eq)]
pub struct FileRef {
    idx: usize,
}

impl FileRef {
    /// The position of the text in the table that issued the handle.
    pub closed spec fn index(&self) -> nat {
        self.idx as nat
    }
}

/// One registered source text.
pub struct File {
    pub source: FileSource,
    pub content: String,
}

impl File {
    /// What is added to the line numbers of this text when they are shown: the
    /// number of an interactive line, nothing for a file.
    pub open spec fn line_offset(&self) -> nat {
        match self.source {
            FileSource::Repl(number) => number as nat,
            FileSource::File(_) => 0,
        }
    }
}

/// How many of `files` are interactive lines.
pub open spec fn repl_count(files: Seq<File>) -> nat
    decreases files.len(),
{
    if files.len() == 0 {
        0
    } else if files.last().source is Repl {
        repl_count(files.drop_last()) + 1
    } else {
        repl_count(files.drop_last())
    }
}

/// Each interactive line among `files` has as its number the count of
/// interactive lines before it.
pub open spec fn repl_numbered(files: Seq<File>) -> bool {
    forall|i: int|
        0 <= i < files.len() ==> (#[trigger] files[i].source matches FileSource::Repl(number)
            ==> number == repl_count(files.take(i)))
}

/// `files` with one more text, from `source` and with `content`, at the end.
pub open spec fn registered(files: Seq<File>, source: FileSource, content: String) -> Seq<File> {
    files.push(File { source, content })
}

/// A text can be read back at the position that registration gave it, and the
/// texts registered before it stay where and what they were.
pub proof fn lemma_registered_round_trip(files: Seq<File>, source: FileSource, content: String)
    ensures
        registered(files, source, content).len() == files.len() + 1,
        registered(files, source, content)[files.len() as int].content == content,
        registered(files, source, content)[files.len() as int].source == source,
        forall|i: int| 0 <= i < files.len() ==> registered(files, source, content)[i] == files[i],
{
}

/// Registering a text adds one to the count of interactive lines if it is one,
/// and nothing if it is a file.
pub proof fn lemma_registered_repl_count(files: Seq<File>, source: FileSource, content: String)
    ensures
        repl_count(registered(files, source, content)) == repl_count(files) + if source is Repl {
            1nat
        } else {
            0nat
        },
{
    assert(registered(files, source, content).drop_last() =~= files);
}

/// The numbering of interactive lines survives the registration of a file, and
/// that of an interactive line which gets the count so far as its number.
pub proof fn lemma_registered_keeps_numbering(
    files: Seq<File>,
    source: FileSource,
    content: String,
)
    requires
        repl_numbered(files),
        source matches FileSource::Repl(number) ==> number == repl_count(files),
    ensures
        repl_numbered(registered(files, source, content)),
{
    let longer = registered(files, source, content);
    assert forall|i: int| 0 <= i < longer.len() implies (#[trigger] longer[i].source matches
        FileSource::Repl(number) ==> number == repl_count(longer.take(i))) by {
        if i < files.len() {
            assert(longer.take(i) =~= files.take(i));
        } else {
            assert(longer.take(i) =~= files);
        }
    }
}

/// The owner of every source text of a session.
pub struct FileTable {
    files: Vec<File>,
    last_repl_line: u32,
}

impl View for FileTable {
    type V = Seq<File>;

    /// The registered texts, in the order of their registration.
    closed spec fn view(&self) -> Seq<File> {
        self.files@
    }
}

impl FileTable {
    /// The table's invariant: it has counted its interactive lines, and has
    /// numbered them in the order of their entry.
    pub closed spec fn wf(&self) -> bool {
        &&& self.last_repl_line == repl_count(self.files@)
        &&& repl_numbered(self.files@)
    }

    /// Whether `rf` is the handle of a text of this table.
    pub open spec fn has(&self, rf: FileRef) -> bool {
        rf.index() < self@.len()
    }

    /// The text that `rf` stands for.
    pub open spec fn file(&self, rf: FileRef) -> File
        recommends
            self.has(rf),
    {
        self@[rf.index() as int]
    }

    /// In a well-formed table the n-th interactive line, counted from 0 among the
    /// interactive lines alone, has the number n, and there are fewer than 2^32
    /// of them.
    pub proof fn lemma_repl_numbers_in_order(&self, i: int)
        requires
            self.wf(),
            0 <= i < self@.len(),
        ensures
            repl_count(self@) <= u32::MAX,
            self@[i].source matches FileSource::Repl(number) ==> number == repl_count(
                self@.take(i),
            ),
    {
    }

    /// An empty table.
    pub fn new() -> (table: FileTable)
        ensures
            table.wf(),
            table@ == Seq::<File>::empty(),
    {
        FileTable { files: Vec::new(), last_repl_line: 0 }
    }

    /// Registers the text of a file, which the caller has read, under the path
    /// that `path` converts into. The handle returned is the next free position.
    pub fn add_file<P: Into<PathBuf>>(&mut self, path: P, content: String) -> (rf: FileRef)
        requires
            old(self).wf(),
        ensures
            final(self).wf(),
            rf.index() == old(self)@.len(),
            exists|p: PathBuf|
                call_ensures(P::into, (path,), p) && final(self)@ == registered(
                    old(self)@,
                    FileSource::File(p),
                    content,
                ),
            final(self).has(rf) && final(self).file(rf).content == content,
            final(self).file(rf).source is File,
            repl_count(final(self)@) == repl_count(old(self)@),
            forall|earlier: FileRef|
                old(self).has(earlier) ==> final(self).has(earlier) && final(self).file(earlier)
                    == old(self).file(earlier),
    {
        let source = FileSource::File(path.into());
        proof {
            lemma_registered_repl_count(self@, source, content);
            lemma_registered_keeps_numbering(self@, source, content);
        }
        self.add_file_from_source(source, content)
    }

    /// Registers one line entered interactively. Its number is the count of such
    /// lines registered before it; registered files do not count. The handle
    /// returned is the next free position, which files and lines share.
    pub fn add_repl_line(&mut self, content: String) -> (rf: FileRef)
        requires
            old(self).wf(),
            repl_count(old(self)@) < u32::MAX,
        ensures
            final(self).wf(),
            rf.index() == old(self)@.len(),
            final(self)@ == registered(
                old(self)@,
                FileSource::Repl(repl_count(old(self)@) as u32),
                content,
            ),
            final(self).has(rf) && final(self).file(rf).content == content,
            repl_count(final(self)@) == repl_count(old(self)@) + 1,
            forall|earlier: FileRef|
                old(self).has(earlier) ==> final(self).has(earlier) && final(self).file(earlier)
                    == old(self).file(earlier),
    {
        let source = FileSource::Repl(self.last_repl_line);
        proof {
            lemma_registered_repl_count(self@, source, content);
            lemma_registered_keeps_numbering(self@, source, content);
        }
        self.last_repl_line += 1;
        self.add_file_from_source(source, content)
    }

    /// Appends a text and returns its position as a handle. The count of
    /// interactive lines is left to the caller.
    fn add_file_from_source(&mut self, source: FileSource, content: String) -> (rf: FileRef)
        ensures
            final(self)@ == registered(old(self)@, source, content),
            final(self).last_repl_line == old(self).last_repl_line,
            rf.index() == old(self)@.len(),
    {
        let idx = self.files.len();
        self.files.push(File { source, content });
        FileRef { idx }
    }

    /// The text that `rf` stands for, with where it came from.
    pub fn get(&self, rf: FileRef) -> (file: &File)
        requires
            self.has(rf),
        ensures
            *file == self.file(rf),
    {
        &self.files[rf.idx]
    }

    /// The content of the text that `rf` stands for.
    pub fn get_content(&self, rf: FileRef) -> (content: &str)
        requires
            self.has(rf),
        ensures
            content@ == self.file(rf).content@,
    {
        self.get(rf).content.as_str()
    }
}

impl Default for FileTable {
    /// An empty table.
    fn default() -> (table: FileTable)
        ensures
            table.wf(),
            table@ == Seq::<File>::empty(),
    {
        FileTable::new()
    }
}

} // verus!
