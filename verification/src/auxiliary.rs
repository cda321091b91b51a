//! The lines that may name an auxiliary file: when the reader asks for
//! one, what it does with what it is handed, when a line can be fed at
//! all, and where the error of a kind that does not exist is placed.

use vstd::prelude::*;
use crate::component::component;
use crate::component::dropbox_format;
use crate::component::is_kind_token;
use crate::component::lemma_unknown_kind;
use crate::component::reads_entries;
use crate::dropbox::dropbox_entries;
use crate::dropbox::entries_upto;
use crate::dropbox::lemma_entries_errors;
use crate::error::located_at;
use crate::error::ErrorView;
use crate::model::ComponentKindView;
use crate::model::ComponentView;
use crate::model::ModuleView;
use crate::parser::feed_spec;
use crate::parser::handed;
use crate::parser::parse_module;
use crate::parser::run;
use crate::parser::significant;
use crate::parser::step;
use crate::parser::wanted;
use crate::parser::ParserView;
use crate::parser::ReadState;
use crate::source::lookup;
use crate::source::missing_file;
use crate::source::supplied;
use crate::source::SourceFileView;
use crate::text::trimmed;

verus! {

/// `NULL` opens no file. A line that holds `NULL`, whitespace aside, asks
/// for no file in any state, and what is handed in with it makes no
/// difference. Where entry names are expected the module has none; where
/// the charset is expected the module has none; where the entries of a
/// component are expected, a dropbox has no entries.
pub proof fn lemma_null_opens_no_file(
    p: ParserView,
    line_no: usize,
    line: Seq<char>,
    aux: Option<SourceFileView>,
    other: Option<SourceFileView>,
)
    requires
        trimmed(line) == "NULL"@,
    ensures
        significant(line),
        wanted(p, line) is None,
        feed_spec(p, line_no, line, aux) == feed_spec(p, line_no, line, other),
        p.state == ReadState::ReadEntryNames ==> feed_spec(p, line_no, line, aux) == Some(
            Ok::<ParserView, ErrorView>(
                ParserView {
                    state: ReadState::ReadCharset,
                    module: ModuleView { entry_names: None, ..p.module },
                    ..p
                },
            ),
        ),
        p.state == ReadState::ReadCharset ==> feed_spec(p, line_no, line, aux) == Some(
            Ok::<ParserView, ErrorView>(
                ParserView { state: ReadState::ReadNextComponentDescription, ..p },
            ),
        ),
        p.state == ReadState::ReadComponentDropboxEntriesAndEnd && reads_entries(p.component_kind)
            ==> feed_spec(p, line_no, line, aux) == Some(
            Ok::<ParserView, ErrorView>(
                ParserView {
                    state: ReadState::ReadNextComponentDescription,
                    module: ModuleView {
                        components: p.module.components.push(
                            ComponentView {
                                description: p.component_description,
                                offset: p.component_offset,
                                length: p.component_length,
                                kind: ComponentKindView::Dropbox(
                                    dropbox_format(trimmed(p.component_kind))->0,
                                    Seq::empty(),
                                ),
                            },
                        ),
                        ..p.module
                    },
                    component_description: Seq::empty(),
                    component_offset: 0,
                    component_length: 0,
                    component_kind: Seq::empty(),
                    ..p
                },
            ),
        ),
{
    reveal_strlit("NULL");
    reveal(step);
    reveal(component);
}

/// A kind that does not exist is an error on the last line of its
/// component. Where the token of the kind is none of the seven, feeding
/// the last line of the component gives the error for an unknown kind with
/// the module file and the number of that line as its place, whatever the
/// line holds and whatever is handed in with it.
pub proof fn lemma_unknown_kind_is_placed(
    p: ParserView,
    line_no: usize,
    line: Seq<char>,
    aux: Option<SourceFileView>,
)
    requires
        p.state == ReadState::ReadComponentDropboxEntriesAndEnd,
        significant(line),
        !is_kind_token(trimmed(p.component_kind)),
    ensures
        wanted(p, line) is None,
        feed_spec(p, line_no, line, aux) == Some(
            Err::<ParserView, ErrorView>(
                located_at(p.filename, line_no, ErrorView::InvalidComponentKind),
            ),
        ),
{
    reveal(step);
    lemma_unknown_kind(
        p.component_description,
        p.component_offset,
        p.component_length,
        p.component_kind,
        None,
    );
}

/// An error of the entries of a dropbox keeps its place. Where the last
/// line of a dropbox names a list of entries that is read with an error,
/// that error is the result as it stands, with its place in the file of
/// the entries if it has one.
pub proof fn lemma_entries_error_is_passed_on(
    p: ParserView,
    line_no: usize,
    line: Seq<char>,
    aux: Option<SourceFileView>,
)
    requires
        p.state == ReadState::ReadComponentDropboxEntriesAndEnd,
        wanted(p, line) is Some,
        dropbox_entries(Some(supplied(wanted(p, line)->0, aux))) matches Some(Err(_)),
    ensures
        feed_spec(p, line_no, line, aux) == Some(
            Err::<ParserView, ErrorView>(
                dropbox_entries(Some(supplied(wanted(p, line)->0, aux)))->0->Err_0,
            ),
        ),
{
    reveal(step);
    reveal(component);
    let file = supplied(wanted(p, line)->0, aux);
    lemma_entries_errors(file, file.lines.len());
}

/// A line that asks for no file is read the same way whatever is handed in
/// with it.
pub proof fn lemma_unwanted_file_is_ignored(
    p: ParserView,
    line_no: usize,
    line: Seq<char>,
    aux: Option<SourceFileView>,
    other: Option<SourceFileView>,
)
    requires
        wanted(p, line) is None,
    ensures
        feed_spec(p, line_no, line, aux) == feed_spec(p, line_no, line, other),
{
}

/// When a line can be fed. Reading a line has a result unless the line
/// is the last of a component and names a file of entries that cannot be
/// read. A file that is not handed in is not there, and that can be read.
pub proof fn lemma_feed_defined(
    p: ParserView,
    line_no: usize,
    line: Seq<char>,
    aux: Option<SourceFileView>,
)
    ensures
        feed_spec(p, line_no, line, aux) is Some <==> (p.state
            == ReadState::ReadComponentDropboxEntriesAndEnd && wanted(p, line) is Some
            ==> dropbox_entries(Some(supplied(wanted(p, line)->0, aux))) is Some),
        aux is None ==> feed_spec(p, line_no, line, aux) is Some,
{
    reveal(step);
    reveal(component);
    if let Some(path) = wanted(p, line) {
        assert(entries_upto(missing_file(path), 0) is Some);
    }
}

/// What `lookup` finds is one of the files.
proof fn lemma_lookup_finds(files: Seq<SourceFileView>, name: Seq<char>)
    ensures
        lookup(files, name) matches Some(f) ==> files.contains(f),
    decreases files.len(),
{
    if files.len() > 0 && files[0].name != name {
        lemma_lookup_finds(files.drop_first(), name);
        if let Some(f) = lookup(files.drop_first(), name) {
            let i = choose|i: int| 0 <= i < files.drop_first().len() && files.drop_first()[i] == f;
            assert(files[i + 1] == f);
        }
    }
}

/// When a module can be read. Reading a module has a result whenever each
/// of the files can be read as a list of entries.
pub proof fn lemma_parse_defined(filename: Seq<char>, files: Seq<SourceFileView>)
    requires
        forall|i: int| 0 <= i < files.len() ==> dropbox_entries(Some(#[trigger] files[i])) is Some,
    ensures
        parse_module(filename, files) is Some,
{
    let module_file = supplied(filename, lookup(files, filename));
    lemma_run_defined(filename, module_file.lines, files, module_file.lines.len());
}

/// The reader after `n` lines, where each of the files can be read as a
/// list of entries.
proof fn lemma_run_defined(
    filename: Seq<char>,
    lines: Seq<Seq<char>>,
    files: Seq<SourceFileView>,
    n: nat,
)
    requires
        forall|i: int| 0 <= i < files.len() ==> dropbox_entries(Some(#[trigger] files[i])) is Some,
    ensures
        run(filename, lines, files, n) is Some,
    decreases n,
{
    if n > 0 {
        lemma_run_defined(filename, lines, files, (n - 1) as nat);
        if let Some(Ok(p)) = run(filename, lines, files, (n - 1) as nat) {
            let aux = handed(p, lines[n - 1], files);
            if let Some(path) = wanted(p, lines[n - 1]) {
                lemma_lookup_finds(files, path);
            }
            lemma_feed_defined(p, n as usize, lines[n - 1], aux);
        }
    }
}

} // verus!
