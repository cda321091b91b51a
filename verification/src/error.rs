//! What can go wrong while a module description is read, and where.

use vstd::prelude::*;

verus! {

/// Why a file, or the rest of a file, could not be read. The library reads
/// no file itself: whoever hands it the lines of a file reports with one of
/// these what stopped the reading.
#[derive(Debug, Clone, Copy, PartialEq, Eq, Structural)]
pub enum IoFailure {
    /// There is no file of that name.
    NotFound,
    /// The file may not be read.
    PermissionDenied,
    /// The file holds bytes that are not text.
    InvalidData,
    /// Anything else.
    Other,
}

/// Integer parse errors of the standard library, carried through unchanged.
#[verifier::external_type_specification]
#[verifier::external_body]
pub struct ExParseIntError(std::num::ParseIntError);

/// An error of the reader. Every error ends the parse.
#[derive(Debug, PartialEq, Eq)]
#[allow(inconsistent_fields)]
pub enum Error {
    /// `source` arose on line `line` (counted from 1) of the file `filename`.
    Located { filename: String, line: usize, source: Box<Error> },
    /// The version line of a module file is not `1`.
    InvalidModuleVersion,
    /// A component names a kind that does not exist.
    InvalidComponentKind,
    /// A charset line is not of the form `code=character`.
    InvalidCharset,
    /// A list of dropbox entries holds more entries than it declares.
    TooManyComponentEntries,
    /// The module file ends in the middle of its header or of a component.
    UnexpectedEof,
    /// A file could not be read.
    Io { source: IoFailure },
    /// A number is not written as the format demands.
    ParseInt { source: std::num::ParseIntError },
}

/// The mathematical value of an [`Error`]: the same shape, with file names
/// as sequences of characters.
#[allow(inconsistent_fields)]
pub enum ErrorView {
    Located { filename: Seq<char>, line: usize, source: Box<ErrorView> },
    InvalidModuleVersion,
    InvalidComponentKind,
    InvalidCharset,
    TooManyComponentEntries,
    UnexpectedEof,
    Io { source: IoFailure },
    ParseInt { source: std::num::ParseIntError },
}

/// The value of an error, by recursion on its sources.
pub open spec fn error_view(e: Error) -> ErrorView
    decreases e,
{
    match e {
        Error::Located { filename, line, source } => ErrorView::Located {
            filename: filename@,
            line,
            source: Box::new(error_view(*source)),
        },
        Error::InvalidModuleVersion => ErrorView::InvalidModuleVersion,
        Error::InvalidComponentKind => ErrorView::InvalidComponentKind,
        Error::InvalidCharset => ErrorView::InvalidCharset,
        Error::TooManyComponentEntries => ErrorView::TooManyComponentEntries,
        Error::UnexpectedEof => ErrorView::UnexpectedEof,
        Error::Io { source } => ErrorView::Io { source },
        Error::ParseInt { source } => ErrorView::ParseInt { source },
    }
}

impl View for Error {
    type V = ErrorView;

    open spec fn view(&self) -> ErrorView {
        error_view(*self)
    }
}

impl DeepView for Error {
    type V = ErrorView;

    open spec fn deep_view(&self) -> ErrorView {
        error_view(*self)
    }
}

/// The value of a result of the reader: the value of what was read, or the
/// value of the error.
pub open spec fn outcome<T: DeepView>(r: Result<T, Error>) -> Result<T::V, ErrorView> {
    match r {
        Ok(v) => Ok(v.deep_view()),
        Err(e) => Err(e@),
    }
}

/// `source`, marked as having arisen on line `line` of `filename`.
pub open spec fn located_at(filename: Seq<char>, line: usize, source: ErrorView) -> ErrorView {
    ErrorView::Located { filename, line, source: Box::new(source) }
}

/// Wraps `source` with the place where it arose.
pub fn located(filename: &str, line: usize, source: Error) -> (e: Error)
    ensures
        e@ == located_at(filename@, line, source@),
{
    Error::Located { filename: filename.to_owned(), line, source: Box::new(source) }
}

} // verus!
