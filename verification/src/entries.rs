//! Names of entries: one name per line, taken as it stands.

use vstd::prelude::*;
use crate::error::outcome;
use crate::error::Error;
use crate::error::ErrorView;
use crate::source::SourceFile;
use crate::source::SourceFileView;

verus! {

/// The names that a file of entry names gives: none where there is no
/// file, else every line as a name, blank ones too, unless the file could
/// not be read to its end.
pub open spec fn module_entries(file: Option<SourceFileView>) -> Result<
    Option<Seq<Seq<char>>>,
    ErrorView,
> {
    match file {
        None => Ok(None),
        Some(f) => match f.failure {
            Some(io) => Err(ErrorView::Io { source: io }),
            None => Ok(Some(f.lines)),
        },
    }
}

/// Reads the names of the entries.
pub fn read_module_entries(file: Option<&SourceFile>) -> (r: Result<Option<Vec<String>>, Error>)
    ensures
        outcome(r) == module_entries(file.deep_view()),
{
    match file {
        None => Ok(None),
        Some(f) => {
            let mut result: Vec<String> = Vec::new();
            let mut i: usize = 0;
            while i < f.lines.len()
                invariant
                    i <= f.lines.len(),
                    result.len() == i,
                    forall|j: int| 0 <= j < i ==> result[j]@ == f.lines[j]@,
                decreases f.lines.len() - i,
            {
                let name = f.lines[i].clone();
                result.push(name);
                i = i + 1;
            }
            assert(result.deep_view() =~= f.lines.deep_view());
            match f.failure {
                Some(io) => Err(Error::Io { source: io }),
                None => Ok(Some(result)),
            }
        },
    }
}

} // verus!
