//! Names of auxiliary files. A module file refers to its auxiliary files
//! relative to the directory that it lies in; the name `NULL` stands for
//! no file.

use vstd::prelude::*;
use crate::text::same_text;

verus! {

/// The directory part of a path as the standard library's `Path::parent`
/// gives it, for the platform the crate is built for.
pub uninterp spec fn path_parent(path: Seq<char>) -> Option<Seq<char>>;

/// The path that the standard library's `Path::join` makes of a directory
/// and a name, for the platform the crate is built for.
pub uninterp spec fn path_join(dir: Seq<char>, name: Seq<char>) -> Seq<char>;

/// `Path::parent` of the standard library, on text. Nothing is claimed of
/// the result but that it depends on the path alone.
#[verifier::external_body]
fn parent_of(path: &str) -> (r: Option<String>)
    ensures
        r.deep_view() == path_parent(path@),
{
    match std::path::Path::new(path).parent() {
        Some(dir) => Some(dir.to_string_lossy().into_owned()),
        None => None,
    }
}

/// `Path::join` of the standard library, on text. Nothing is claimed of
/// the result but that it depends on the two arguments alone.
#[verifier::external_body]
fn join(dir: &str, name: &str) -> (r: String)
    ensures
        r@ == path_join(dir@, name@),
{
    std::path::Path::new(dir).join(name).to_string_lossy().into_owned()
}

/// The directory that auxiliary files of the module file `filename` are
/// looked for in: its parent, or the empty path if it has none.
pub open spec fn parent_dir_of(filename: Seq<char>) -> Seq<char> {
    match path_parent(filename) {
        Some(dir) => dir,
        None => Seq::empty(),
    }
}

/// The file that a line of a module file refers to: none for `NULL`, else
/// the name on the line, taken relative to `parent_dir`.
pub open spec fn full_filename(parent_dir: Seq<char>, filename: Seq<char>) -> Option<Seq<char>> {
    if filename == "NULL"@ {
        None
    } else {
        Some(path_join(parent_dir, filename))
    }
}

/// The directory that auxiliary files of the module file `filename` are
/// looked for in.
pub fn parent_dir(filename: &str) -> (dir: String)
    ensures
        dir@ == parent_dir_of(filename@),
{
    match parent_of(filename) {
        Some(dir) => dir,
        None => String::new(),
    }
}

/// The file that a line of a module file refers to.
pub fn get_full_filename(parent_dir: &str, filename: &str) -> (r: Option<String>)
    ensures
        r.deep_view() == full_filename(parent_dir@, filename@),
{
    if same_text(filename, "NULL") {
        None
    } else {
        Some(join(parent_dir, filename))
    }
}

} // verus!
