//! Lists of dropbox entries: a first line that declares how many entries
//! follow, then one entry per line, a number and a label with a space
//! between them.

use vstd::prelude::*;
use vstd::string::StrSliceExecFns;
use crate::error::located;
use crate::error::located_at;
use crate::error::outcome;
use crate::error::Error;
use crate::error::ErrorView;
use crate::number::parse_int;
use crate::number::parse_int_spec;
use crate::source::SourceFile;
use crate::source::SourceFileView;
use crate::text::after;
use crate::text::before;
use crate::text::find_char;
use crate::text::lemma_position;
use crate::text::trimmed;

verus! {

/// What one entry line holds. The number is what stands before the first
/// space and the label is all that follows that space, further spaces
/// included. A line whose number is wrong is an error. A line that is one
/// number and nothing else cannot be split, and holds nothing: `None`.
pub open spec fn entry_line(line: Seq<char>) -> Option<Result<(u32, Seq<char>), ErrorView>> {
    let text = trimmed(line);
    match parse_int_spec(before(text, ' ')) {
        Err(e) => Some(Err(e)),
        Ok(value) => if text.contains(' ') {
            Some(Ok((value, after(text, ' '))))
        } else {
            None
        },
    }
}

/// The reader between two lines: how many entries the declared count still
/// allows, and the entries read so far.
pub struct EntriesSoFar {
    pub left: u32,
    pub entries: Seq<(u32, Seq<char>)>,
}

/// The reader after the first `n` lines of `file`: where it stands, the
/// error that stopped it, or `None` if it met a line that cannot be split.
/// Lines are numbered from 1. An entry line that comes when the declared
/// count is used up is an error on that line, whatever it holds.
pub open spec fn entries_upto(file: SourceFileView, n: nat) -> Option<
    Result<EntriesSoFar, ErrorView>,
>
    decreases n,
{
    if n == 0 {
        Some(Ok(EntriesSoFar { left: 0, entries: Seq::empty() }))
    } else {
        match entries_upto(file, (n - 1) as nat) {
            Some(Ok(so_far)) => if n == 1 {
                match parse_int_spec(trimmed(file.lines[0])) {
                    Ok(count) => Some(Ok(EntriesSoFar { left: count, entries: Seq::empty() })),
                    Err(e) => Some(Err(located_at(file.name, 1, e))),
                }
            } else if so_far.left == 0 {
                Some(Err(located_at(file.name, n as usize, ErrorView::TooManyComponentEntries)))
            } else {
                match entry_line(file.lines[n - 1]) {
                    None => None,
                    Some(Err(e)) => Some(Err(located_at(file.name, n as usize, e))),
                    Some(Ok(entry)) => Some(
                        Ok(
                            EntriesSoFar {
                                left: (so_far.left - 1) as u32,
                                entries: so_far.entries.push(entry),
                            },
                        ),
                    ),
                }
            },
            stopped => stopped,
        }
    }
}

/// What a list of dropbox entries holds. No file gives no entries. Else the
/// lines are read in order and the first error ends the reading, with the
/// line it arose on as its place; a failure of the file itself comes after
/// its last line. More entries than the first line declares are an error,
/// whose place is the first line beyond the count; fewer are not. `None`
/// where the reading meets a line that cannot be split.
pub open spec fn dropbox_entries(file: Option<SourceFileView>) -> Option<
    Result<Seq<(u32, Seq<char>)>, ErrorView>,
> {
    match file {
        None => Some(Ok(Seq::empty())),
        Some(f) => match entries_upto(f, f.lines.len()) {
            None => None,
            Some(Err(e)) => Some(Err(e)),
            Some(Ok(so_far)) => match f.failure {
                Some(io) => Some(Err(ErrorView::Io { source: io })),
                None => Some(Ok(so_far.entries)),
            },
        },
    }
}

/// Once the reader has stopped, further lines change nothing.
pub proof fn lemma_entries_stopped(file: SourceFileView, n: nat, m: nat)
    requires
        n <= m,
        !(entries_upto(file, n) matches Some(Ok(_))),
    ensures
        entries_upto(file, m) == entries_upto(file, n),
    decreases m,
{
    if n < m {
        lemma_entries_stopped(file, n, (m - 1) as nat);
    }
}

/// Whether `e` is an error that a line of the file `name` can give: a
/// wrong number or too many entries, with its place in that file.
pub open spec fn entry_error(e: ErrorView, name: Seq<char>) -> bool {
    match e {
        ErrorView::Located { filename, line, source } => filename == name && (*source is ParseInt
            || *source is TooManyComponentEntries),
        _ => false,
    }
}

/// The errors of the reader: each is a wrong number or too many entries,
/// with its place in the file. None is an error without a place.
pub proof fn lemma_entries_errors(file: SourceFileView, n: nat)
    ensures
        entries_upto(file, n) matches Some(Err(e)) ==> entry_error(e, file.name),
    decreases n,
{
    if n > 0 {
        lemma_entries_errors(file, (n - 1) as nat);
    }
}

/// Whether line `i` of `file` is an entry line that can be read.
pub open spec fn well_formed_entry(file: SourceFileView, i: int) -> bool {
    entry_line(file.lines[i]) matches Some(Ok(_))
}

/// The entry that line `i` of `file` holds, where it can be read.
pub open spec fn entry_of(file: SourceFileView, i: int) -> (u32, Seq<char>) {
    entry_line(file.lines[i])->0->Ok_0
}

/// The reader after the first line and `k` entry lines, where the first
/// line declares at least `k` entries and these `k` lines can be read: it
/// holds their entries in order, and the count is down by `k`.
proof fn lemma_entries_read(file: SourceFileView, count: u32, k: nat)
    requires
        k < file.lines.len(),
        k <= count,
        parse_int_spec(trimmed(file.lines[0])) == Ok::<u32, ErrorView>(count),
        forall|i: int| 1 <= i <= k ==> well_formed_entry(file, i),
    ensures
        entries_upto(file, k + 1) == Some(
            Ok::<EntriesSoFar, ErrorView>(
                EntriesSoFar {
                    left: (count - k) as u32,
                    entries: Seq::new(k, |i: int| entry_of(file, i + 1)),
                },
            ),
        ),
    decreases k,
{
    if k == 0 {
        assert(entries_upto(file, 0) == Some(
            Ok::<EntriesSoFar, ErrorView>(EntriesSoFar { left: 0, entries: Seq::empty() }),
        ));
        assert(Seq::new(0, |i: int| entry_of(file, i + 1)) =~= Seq::empty());
    } else {
        lemma_entries_read(file, count, (k - 1) as nat);
        assert(well_formed_entry(file, k as int));
        assert(Seq::new(k, |i: int| entry_of(file, i + 1)) =~= Seq::new(
            (k - 1) as nat,
            |i: int| entry_of(file, i + 1),
        ).push(entry_of(file, k as int)));
    }
}

/// As many entries as declared, or fewer. Where the first line declares
/// `count` entries, at most `count` lines follow it, each of them can be
/// read, and the file was read to its end, the result holds one entry for
/// each of these lines, in their order.
pub proof fn lemma_entries_within_count(file: SourceFileView, count: u32)
    requires
        file.lines.len() >= 1,
        file.lines.len() - 1 <= count,
        file.failure is None,
        parse_int_spec(trimmed(file.lines[0])) == Ok::<u32, ErrorView>(count),
        forall|i: int| 1 <= i < file.lines.len() ==> well_formed_entry(file, i),
    ensures
        dropbox_entries(Some(file)) == Some(
            Ok::<Seq<(u32, Seq<char>)>, ErrorView>(
                Seq::new((file.lines.len() - 1) as nat, |i: int| entry_of(file, i + 1)),
            ),
        ),
{
    lemma_entries_read(file, count, (file.lines.len() - 1) as nat);
}

/// More entries than declared. Where the first line declares `count`
/// entries, more than `count` lines follow it, and the first `count` of
/// them can be read, the result is the error for too many entries, placed
/// on the first line beyond the count, which is line `count + 2` of the
/// file, whatever that line and the further lines hold.
pub proof fn lemma_entries_beyond_count(file: SourceFileView, count: u32)
    requires
        file.lines.len() - 1 > count,
        parse_int_spec(trimmed(file.lines[0])) == Ok::<u32, ErrorView>(count),
        forall|i: int| 1 <= i <= count ==> well_formed_entry(file, i),
    ensures
        dropbox_entries(Some(file)) == Some(
            Err::<Seq<(u32, Seq<char>)>, ErrorView>(
                located_at(
                    file.name,
                    (count + 2) as usize,
                    ErrorView::TooManyComponentEntries,
                ),
            ),
        ),
{
    lemma_entries_read(file, count, count as nat);
    assert(entries_upto(file, (count + 2) as nat) == Some(
        Err::<EntriesSoFar, ErrorView>(
            located_at(file.name, (count + 2) as usize, ErrorView::TooManyComponentEntries),
        ),
    ));
    lemma_entries_stopped(file, (count + 2) as nat, file.lines.len());
}

/// Reads the lines of `file` as far as they can be read: `None` where a line
/// cannot be split.
fn scan_entries(file: &SourceFile) -> (r: Option<Result<Vec<(u32, String)>, Error>>)
    ensures
        match r {
            None => dropbox_entries(Some(file@)) is None,
            Some(found) => dropbox_entries(Some(file@)) == Some(outcome(found)),
        },
{
    let mut result: Vec<(u32, String)> = Vec::new();
    let mut entries_left: u32 = 0;
    let mut i: usize = 0;
    assert(result.deep_view() =~= Seq::empty());
    while i < file.lines.len()
        invariant
            i <= file.lines.len(),
            entries_upto(file@, i as nat) == Some(
                Ok::<EntriesSoFar, ErrorView>(
                    EntriesSoFar { left: entries_left, entries: result.deep_view() },
                ),
            ),
        decreases file.lines.len() - i,
    {
        let ghost total = file@.lines.len();
        let line = file.lines[i].as_str().trim();
        assert(line@ == trimmed(file@.lines[i as int]));
        if i == 0 {
            match parse_int(line) {
                Ok(count) => {
                    entries_left = count;
                },
                Err(e) => {
                    proof {
                        lemma_entries_stopped(file@, 1, total);
                    }
                    return Some(Err(located(file.name.as_str(), 1, e)));
                },
            }
        } else {
            if entries_left == 0 {
                proof {
                    lemma_entries_stopped(file@, (i + 1) as nat, total);
                }
                return Some(
                    Err(located(file.name.as_str(), i + 1, Error::TooManyComponentEntries)),
                );
            }
            let length = line.unicode_len();
            proof {
                lemma_position(line@, ' ');
            }
            match find_char(line, ' ') {
                Some(cut) => {
                    match parse_int(line.substring_char(0, cut)) {
                        Ok(value) => {
                            let label = line.substring_char(cut + 1, length).to_owned();
                            let ghost before_push = result.deep_view();
                            result.push((value, label));
                            assert(result.deep_view() =~= before_push.push((value, label@)));
                            entries_left = entries_left - 1;
                        },
                        Err(e) => {
                            proof {
                                lemma_entries_stopped(file@, (i + 1) as nat, total);
                            }
                            return Some(Err(located(file.name.as_str(), i + 1, e)));
                        },
                    }
                },
                None => {
                    assert(line@.take(length as int) =~= line@);
                    match parse_int(line) {
                        Ok(_) => {
                            proof {
                                lemma_entries_stopped(file@, (i + 1) as nat, total);
                            }
                            return None;
                        },
                        Err(e) => {
                            proof {
                                lemma_entries_stopped(file@, (i + 1) as nat, total);
                            }
                            return Some(Err(located(file.name.as_str(), i + 1, e)));
                        },
                    }
                },
            }
        }
        i = i + 1;
    }
    match file.failure {
        Some(io) => Some(Err(Error::Io { source: io })),
        None => Some(Ok(result)),
    }
}

/// Whether every line of `file` that is read as an entry can be split.
pub fn entries_split(file: &SourceFile) -> (b: bool)
    ensures
        b == dropbox_entries(Some(file@)) is Some,
{
    scan_entries(file).is_some()
}

/// Reads a list of dropbox entries: none where there is no file. An entry
/// line that is a number without a label has no reading, and is ruled out.
pub fn read_component_dropbox_entries(file: Option<&SourceFile>) -> (r: Result<
    Vec<(u32, String)>,
    Error,
>)
    requires
        dropbox_entries(file.deep_view()) is Some,
    ensures
        dropbox_entries(file.deep_view()) == Some(outcome(r)),
{
    match file {
        None => {
            let entries: Vec<(u32, String)> = Vec::new();
            assert(entries.deep_view() =~= Seq::empty());
            Ok(entries)
        },
        Some(f) => match scan_entries(f) {
            Some(found) => found,
            None => vstd::pervasive::unreached(),
        },
    }
}

} // verus!
