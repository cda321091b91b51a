//! The shape of a module file: the reader goes through its states in a
//! fixed order, so the number of lines that count decides where it stands
//! and how many components it has read.

use vstd::prelude::*;
use crate::error::ErrorView;
use crate::error::IoFailure;
use crate::model::ModuleView;
use crate::parser::feed_spec;
use crate::parser::handed;
use crate::parser::lemma_run_stopped;
use crate::parser::parse_lines;
use crate::parser::run;
use crate::parser::significant;
use crate::parser::start;
use crate::parser::step;
use crate::parser::ParserView;
use crate::parser::ReadState;
use crate::path::parent_dir_of;
use crate::source::SourceFileView;
use crate::text::trimmed;

verus! {

/// The state that follows `state` when a line has been read.
pub open spec fn successor(state: ReadState) -> ReadState {
    match state {
        ReadState::ReadVersion => ReadState::ReadDescription,
        ReadState::ReadDescription => ReadState::ReadRootOffset,
        ReadState::ReadRootOffset => ReadState::ReadEntryCount,
        ReadState::ReadEntryCount => ReadState::ReadEntryLength,
        ReadState::ReadEntryLength => ReadState::ReadEntryNames,
        ReadState::ReadEntryNames => ReadState::ReadCharset,
        ReadState::ReadCharset => ReadState::ReadNextComponentDescription,
        ReadState::ReadNextComponentDescription => ReadState::ReadComponentOffset,
        ReadState::ReadComponentOffset => ReadState::ReadComponentLength,
        ReadState::ReadComponentLength => ReadState::ReadComponentKind,
        ReadState::ReadComponentKind => ReadState::ReadComponentDropboxEntriesAndEnd,
        ReadState::ReadComponentDropboxEntriesAndEnd => ReadState::ReadNextComponentDescription,
    }
}

/// The lines that count among the first `n` lines, in their order.
pub open spec fn counted(lines: Seq<Seq<char>>, n: nat) -> Seq<Seq<char>>
    decreases n,
{
    if n == 0 {
        Seq::empty()
    } else if significant(lines[n - 1]) {
        counted(lines, (n - 1) as nat).push(lines[n - 1])
    } else {
        counted(lines, (n - 1) as nat)
    }
}

/// How many of the first `n` lines count.
pub open spec fn count_significant(lines: Seq<Seq<char>>, n: nat) -> nat {
    counted(lines, n).len()
}

/// The state of the reader that has read `k` lines that count: seven
/// lines of header, then five lines for each component.
pub open spec fn state_after(k: nat) -> ReadState {
    if k == 0 {
        ReadState::ReadVersion
    } else if k == 1 {
        ReadState::ReadDescription
    } else if k == 2 {
        ReadState::ReadRootOffset
    } else if k == 3 {
        ReadState::ReadEntryCount
    } else if k == 4 {
        ReadState::ReadEntryLength
    } else if k == 5 {
        ReadState::ReadEntryNames
    } else if k == 6 {
        ReadState::ReadCharset
    } else if (k - 7) % 5 == 0 {
        ReadState::ReadNextComponentDescription
    } else if (k - 7) % 5 == 1 {
        ReadState::ReadComponentOffset
    } else if (k - 7) % 5 == 2 {
        ReadState::ReadComponentLength
    } else if (k - 7) % 5 == 3 {
        ReadState::ReadComponentKind
    } else {
        ReadState::ReadComponentDropboxEntriesAndEnd
    }
}

/// How many components the reader has read that has read `k` lines that
/// count.
pub open spec fn components_after(k: nat) -> nat {
    if k < 7 {
        0
    } else {
        ((k - 7) / 5) as nat
    }
}

/// Whether `k` lines that count make a whole module: a header and a whole
/// number of components.
pub open spec fn whole(k: nat) -> bool {
    k >= 7 && (k - 7) % 5 == 0
}

/// The states follow each other in a fixed order. A line that does not
/// count changes nothing. A line that counts, if it is read without error,
/// takes the reader to the next state; it adds one component if it is the
/// last line of a component and none else; and it leaves the names that
/// the reader was made with as they are.
pub proof fn lemma_feed_advances(
    p: ParserView,
    line_no: usize,
    line: Seq<char>,
    aux: Option<SourceFileView>,
)
    requires
        feed_spec(p, line_no, line, aux) matches Some(Ok(_)),
    ensures
        ({
            let q = feed_spec(p, line_no, line, aux)->0->Ok_0;
            &&& !significant(line) ==> q == p
            &&& significant(line) ==> q.state == successor(p.state)
            &&& q.filename == p.filename
            &&& q.parent_dir == p.parent_dir
            &&& q.module.components.len() == p.module.components.len() + if significant(line)
                && p.state == ReadState::ReadComponentDropboxEntriesAndEnd {
                1nat
            } else {
                0nat
            }
        }),
{
    reveal(step);
}

/// Where the reader stands after `n` lines, if no error has stopped it.
pub proof fn lemma_run_shape(
    filename: Seq<char>,
    lines: Seq<Seq<char>>,
    files: Seq<SourceFileView>,
    n: nat,
)
    requires
        run(filename, lines, files, n) matches Some(Ok(_)),
    ensures
        ({
            let p = run(filename, lines, files, n)->0->Ok_0;
            let k = count_significant(lines, n);
            &&& p.state == state_after(k)
            &&& p.module.components.len() == components_after(k)
            &&& p.filename == filename
            &&& p.parent_dir == parent_dir_of(filename)
        }),
    decreases n,
{
    if n > 0 {
        let m = (n - 1) as nat;
        lemma_run_shape(filename, lines, files, m);
        let p = run(filename, lines, files, m)->0->Ok_0;
        let aux = handed(p, lines[n - 1], files);
        lemma_feed_advances(p, n as usize, lines[n - 1], aux);
    }
}

/// The reader after `n` lines depends on these `n` lines alone.
pub proof fn lemma_run_prefix(
    filename: Seq<char>,
    lines: Seq<Seq<char>>,
    other: Seq<Seq<char>>,
    files: Seq<SourceFileView>,
    n: nat,
)
    requires
        n <= lines.len(),
        n <= other.len(),
        forall|i: int| 0 <= i < n ==> lines[i] == other[i],
    ensures
        run(filename, lines, files, n) == run(filename, other, files, n),
    decreases n,
{
    if n > 0 {
        lemma_run_prefix(filename, lines, other, files, (n - 1) as nat);
    }
}

/// A module that is read without error has a whole shape: seven lines of
/// header and five lines for each of its components, blank lines and
/// comments aside.
pub proof fn lemma_complete_module(
    filename: Seq<char>,
    lines: Seq<Seq<char>>,
    failure: Option<IoFailure>,
    files: Seq<SourceFileView>,
)
    requires
        parse_lines(filename, lines, failure, files) matches Some(Ok(_)),
    ensures
        failure is None,
        whole(count_significant(lines, lines.len())),
        count_significant(lines, lines.len()) == 7 + 5 * parse_lines(
            filename,
            lines,
            failure,
            files,
        )->0->Ok_0.components.len(),
{
    lemma_run_shape(filename, lines, files, lines.len());
}

/// The end of the file. Where every line of a module file is read without
/// error and the file was read to its end, the result is the module if
/// the shape is whole, and else the error for an unexpected end.
pub proof fn lemma_end_of_file(
    filename: Seq<char>,
    lines: Seq<Seq<char>>,
    files: Seq<SourceFileView>,
)
    requires
        run(filename, lines, files, lines.len()) matches Some(Ok(_)),
    ensures
        ({
            let p = run(filename, lines, files, lines.len())->0->Ok_0;
            parse_lines(filename, lines, None, files) == Some(
                if whole(count_significant(lines, lines.len())) {
                    Ok::<ModuleView, ErrorView>(p.module)
                } else {
                    Err::<ModuleView, ErrorView>(ErrorView::UnexpectedEof)
                },
            )
        }),
{
    lemma_run_shape(filename, lines, files, lines.len());
}

/// One line less. Where a module file is read without error and its last
/// line counts, the same file without that line ends unexpectedly.
pub proof fn lemma_last_line_removed(
    filename: Seq<char>,
    lines: Seq<Seq<char>>,
    files: Seq<SourceFileView>,
)
    requires
        parse_lines(filename, lines, None, files) matches Some(Ok(_)),
        lines.len() > 0,
        significant(lines.last()),
    ensures
        parse_lines(filename, lines.drop_last(), None, files) == Some(
            Err::<ModuleView, ErrorView>(ErrorView::UnexpectedEof),
        ),
{
    let n = lines.len();
    let m = (n - 1) as nat;
    let shorter = lines.drop_last();
    lemma_run_shape(filename, lines, files, n);
    lemma_run_prefix(filename, lines, shorter, files, m);
    assert(run(filename, lines, files, m) matches Some(Ok(_)));
    lemma_run_shape(filename, lines, files, m);
}

/// The version comes first. Where the first line that counts is not `1`,
/// the module is refused for its version, whatever follows.
pub proof fn lemma_version_checked_first(
    filename: Seq<char>,
    lines: Seq<Seq<char>>,
    failure: Option<IoFailure>,
    files: Seq<SourceFileView>,
    first: int,
)
    requires
        0 <= first < lines.len(),
        forall|i: int| 0 <= i < first ==> !significant(#[trigger] lines[i]),
        significant(lines[first]),
        trimmed(lines[first]) != "1"@,
    ensures
        parse_lines(filename, lines, failure, files) == Some(
            Err::<ModuleView, ErrorView>(ErrorView::InvalidModuleVersion),
        ),
{
    lemma_skipped(filename, lines, files, first as nat);
    reveal(step);
    assert(run(filename, lines, files, (first + 1) as nat) == Some(
        Err::<ParserView, ErrorView>(ErrorView::InvalidModuleVersion),
    ));
    lemma_run_stopped(filename, lines, files, (first + 1) as nat, lines.len());
}

/// Lines that do not count leave the reader where it began.
proof fn lemma_skipped(
    filename: Seq<char>,
    lines: Seq<Seq<char>>,
    files: Seq<SourceFileView>,
    n: nat,
)
    requires
        n <= lines.len(),
        forall|i: int| 0 <= i < n ==> !significant(#[trigger] lines[i]),
    ensures
        run(filename, lines, files, n) == Some(Ok::<ParserView, ErrorView>(start(filename))),
    decreases n,
{
    if n > 0 {
        lemma_skipped(filename, lines, files, (n - 1) as nat);
    }
}

} // verus!
