//! Files as the reader sees them. The library opens nothing: it is handed
//! the lines that were read, and what stopped the reading, if anything did.

use vstd::prelude::*;
use crate::error::IoFailure;
use crate::text::same_text;

verus! {

/// A file as far as it could be read: its name, its lines in order without
/// their line ends, and the failure that ended the reading early. A file
/// that could not be opened has no lines and a failure.
#[derive(Debug, PartialEq)]
pub struct SourceFile {
    pub name: String,
    pub lines: Vec<String>,
    pub failure: Option<IoFailure>,
}

/// The value of a [`SourceFile`].
pub struct SourceFileView {
    pub name: Seq<char>,
    pub lines: Seq<Seq<char>>,
    pub failure: Option<IoFailure>,
}

impl View for SourceFile {
    type V = SourceFileView;

    open spec fn view(&self) -> SourceFileView {
        SourceFileView {
            name: self.name@,
            lines: self.lines.deep_view(),
            failure: self.failure,
        }
    }
}

impl DeepView for SourceFile {
    type V = SourceFileView;

    open spec fn deep_view(&self) -> SourceFileView {
        self@
    }
}

/// The file that is not there.
pub open spec fn missing_file(name: Seq<char>) -> SourceFileView {
    SourceFileView { name, lines: Seq::empty(), failure: Some(IoFailure::NotFound) }
}

/// The first of `files` that bears the name `name`.
pub open spec fn lookup(files: Seq<SourceFileView>, name: Seq<char>) -> Option<SourceFileView>
    decreases files.len(),
{
    if files.len() == 0 {
        None
    } else if files[0].name == name {
        Some(files[0])
    } else {
        lookup(files.drop_first(), name)
    }
}

/// The file that a reader gets for `name`: the one that was supplied, or
/// else the file that is not there.
pub open spec fn supplied(name: Seq<char>, file: Option<SourceFileView>) -> SourceFileView {
    match file {
        Some(f) => f,
        None => missing_file(name),
    }
}

impl SourceFile {
    /// A file that was read to its end.
    pub fn new(name: String, lines: Vec<String>) -> (file: SourceFile)
        ensures
            file.name == name,
            file.lines == lines,
            file.failure is None,
    {
        SourceFile { name, lines, failure: None }
    }

    /// The file that is not there.
    pub fn missing(name: &str) -> (file: SourceFile)
        ensures
            file@ == missing_file(name@),
    {
        let file = SourceFile {
            name: name.to_owned(),
            lines: Vec::new(),
            failure: Some(IoFailure::NotFound),
        };
        assert(file.lines.deep_view() =~= Seq::empty());
        file
    }
}

/// Looks a file up by its name.
pub fn find_file<'a>(files: &'a Vec<SourceFile>, name: &str) -> (r: Option<&'a SourceFile>)
    ensures
        r.deep_view() == lookup(files.deep_view(), name@),
{
    let ghost all = files.deep_view();
    let mut i: usize = 0;
    assert(all.skip(0) =~= all);
    while i < files.len()
        invariant
            i <= files.len(),
            all == files.deep_view(),
            lookup(all, name@) == lookup(all.skip(i as int), name@),
        decreases files.len() - i,
    {
        assert(all.skip(i as int)[0] == files[i as int]@);
        if same_text(files[i].name.as_str(), name) {
            return Some(&files[i]);
        }
        assert(all.skip(i as int).drop_first() =~= all.skip(i + 1));
        i = i + 1;
    }
    None
}

} // verus!
