//! What a module file says, stated line by line. The lines that count are
//! numbered from 0: line 0 is the version, lines 1 to 6 are the header, and
//! component `i` takes the five lines from `7 + 5 * i` on. A module file is
//! read without error exactly if each of these lines is right in its place,
//! and the module that is read is made of what these lines hold.

use vstd::prelude::*;
use crate::charset::charset;
use crate::component::component;
use crate::component::reads_entries;
use crate::counting::components_after;
use crate::counting::counted;
use crate::counting::state_after;
use crate::counting::whole;
use crate::entries::module_entries;
use crate::error::ErrorView;
use crate::error::IoFailure;
use crate::model::ComponentView;
use crate::model::ModuleView;
use crate::number::parse_int_spec;
use crate::parser::after_component_end;
use crate::parser::feed_spec;
use crate::parser::handed;
use crate::parser::parse_lines;
use crate::parser::run;
use crate::parser::significant;
use crate::parser::step;
use crate::parser::ParserView;
use crate::parser::ReadState;
use crate::path::full_filename;
use crate::path::parent_dir_of;
use crate::source::lookup;
use crate::source::supplied;
use crate::source::SourceFileView;
use crate::text::trimmed;

verus! {

/// The file that is opened for a line that names one: none for `NULL`,
/// else the file of that name in the directory `parent_dir`, or the file
/// that is not there.
#[verifier::opaque]
pub open spec fn opened(parent_dir: Seq<char>, line: Seq<char>, files: Seq<SourceFileView>)
    -> Option<SourceFileView> {
    match full_filename(parent_dir, trimmed(line)) {
        Some(path) => Some(supplied(path, lookup(files, path))),
        None => None,
    }
}

/// Whether a line holds an integer literal, whitespace aside.
#[verifier::opaque]
pub open spec fn is_number(line: Seq<char>) -> bool {
    parse_int_spec(trimmed(line)) is Ok
}

/// The number that a line holds, where it holds one.
#[verifier::opaque]
pub open spec fn number_of(line: Seq<char>) -> u32 {
    parse_int_spec(trimmed(line))->Ok_0
}

/// Component `i` as its five lines give it: description, offset, length,
/// kind, and the file of its entries, which is opened for a dropbox only.
#[verifier::opaque]
pub open spec fn component_at(
    parent_dir: Seq<char>,
    sig: Seq<Seq<char>>,
    i: int,
    files: Seq<SourceFileView>,
) -> Option<Result<ComponentView, ErrorView>> {
    component(
        sig[7 + 5 * i],
        number_of(sig[8 + 5 * i]),
        number_of(sig[9 + 5 * i]),
        sig[10 + 5 * i],
        if reads_entries(sig[10 + 5 * i]) {
            opened(parent_dir, sig[11 + 5 * i], files)
        } else {
            None
        },
    )
}

/// Whether the five lines of component `i` are right.
pub open spec fn component_ok(
    parent_dir: Seq<char>,
    sig: Seq<Seq<char>>,
    i: int,
    files: Seq<SourceFileView>,
) -> bool {
    &&& is_number(sig[8 + 5 * i])
    &&& is_number(sig[9 + 5 * i])
    &&& component_at(parent_dir, sig, i, files) matches Some(Ok(_))
}

/// Whether each of the lines `sig`, the first lines that count of a module
/// file, is right in its place: the version is `1`; the three numbers of
/// the header are numbers; the files of the entry names and of the charset,
/// where the lines name them, are read without error; each component that
/// is complete is right; and of the component that is not complete yet, the
/// offset and the length are numbers as far as they are there.
pub open spec fn accepted(parent_dir: Seq<char>, sig: Seq<Seq<char>>, files: Seq<SourceFileView>)
    -> bool {
    let k = sig.len() as int;
    let c = components_after(sig.len()) as int;
    let base = 7 + 5 * c;
    &&& k > 0 ==> trimmed(sig[0]) == "1"@
    &&& k > 2 ==> is_number(sig[2])
    &&& k > 3 ==> is_number(sig[3])
    &&& k > 4 ==> is_number(sig[4])
    &&& k > 5 ==> module_entries(opened(parent_dir, sig[5], files)) is Ok
    &&& k > 6 ==> (opened(parent_dir, sig[6], files) matches Some(f) ==> charset(f) is Ok)
    &&& forall|i: int| 0 <= i < c ==> #[trigger] component_ok(parent_dir, sig, i, files)
    &&& k > base + 1 ==> is_number(sig[base + 1])
    &&& k > base + 2 ==> is_number(sig[base + 2])
}

/// The reader that has read the lines `sig`, each of them right in its
/// place. What is not read yet is empty or zero.
pub open spec fn reader_at(filename: Seq<char>, sig: Seq<Seq<char>>, files: Seq<SourceFileView>)
    -> ParserView {
    let k = sig.len() as int;
    let parent_dir = parent_dir_of(filename);
    let c = components_after(sig.len()) as int;
    let base = 7 + 5 * c;
    ParserView {
        filename,
        parent_dir,
        state: state_after(sig.len()),
        module: ModuleView {
            description: if k > 1 {
                sig[1]
            } else {
                Seq::empty()
            },
            root_offset: if k > 2 {
                number_of(sig[2])
            } else {
                0
            },
            entry_count: if k > 3 {
                number_of(sig[3])
            } else {
                0
            },
            entry_length: if k > 4 {
                number_of(sig[4])
            } else {
                0
            },
            entry_names: if k > 5 {
                module_entries(opened(parent_dir, sig[5], files))->Ok_0
            } else {
                None
            },
            charset: if k > 6 {
                match opened(parent_dir, sig[6], files) {
                    Some(f) => Some(charset(f)->Ok_0),
                    None => None,
                }
            } else {
                None
            },
            components: Seq::new(
                c as nat,
                |i: int| component_at(parent_dir, sig, i, files)->0->Ok_0,
            ),
        },
        component_description: if k > base {
            sig[base]
        } else {
            Seq::empty()
        },
        component_offset: if k > base + 1 {
            number_of(sig[base + 1])
        } else {
            0
        },
        component_length: if k > base + 2 {
            number_of(sig[base + 2])
        } else {
            0
        },
        component_kind: if k > base + 3 {
            sig[base + 3]
        } else {
            Seq::empty()
        },
    }
}

/// The module that the lines `sig` describe, where they make a whole
/// module: the description is line 1 as it stands; the offset of the
/// table, the number of entries and the length of an entry are the numbers
/// on lines 2 to 4; the entry names and the charset are read from the files
/// that lines 5 and 6 name; and the components follow in the order of
/// their lines.
pub open spec fn module_of(filename: Seq<char>, sig: Seq<Seq<char>>, files: Seq<SourceFileView>)
    -> ModuleView {
    reader_at(filename, sig, files).module
}

/// What is right of `sig` and a further line is right of `sig`.
proof fn lemma_accepted_before(
    parent_dir: Seq<char>,
    sig: Seq<Seq<char>>,
    line: Seq<char>,
    files: Seq<SourceFileView>,
)
    requires
        accepted(parent_dir, sig.push(line), files),
    ensures
        accepted(parent_dir, sig, files),
{
    let more = sig.push(line);
    let c = components_after(sig.len()) as int;
    lemma_components_stay(parent_dir, sig, line, files);
    assert forall|i: int| 0 <= i < c implies #[trigger] component_ok(
        parent_dir,
        sig,
        i,
        files,
    ) by {
        assert(component_ok(parent_dir, more, i, files));
    }
    if components_after(more.len()) > c {
        assert(component_ok(parent_dir, more, c, files));
    }
}

/// Whether the reader that has read `sig` reads the further line `line`,
/// which counts, without error exactly if that line is right in its place,
/// and is then the reader that has read `sig` and that line.
spec fn one_more_line(
    filename: Seq<char>,
    sig: Seq<Seq<char>>,
    line_no: usize,
    line: Seq<char>,
    files: Seq<SourceFileView>,
) -> bool {
    let p = reader_at(filename, sig, files);
    let r = feed_spec(p, line_no, line, handed(p, line, files));
    &&& (r matches Some(Ok(_))) == accepted(parent_dir_of(filename), sig.push(line), files)
    &&& r matches Some(Ok(q)) ==> q == reader_at(filename, sig.push(line), files)
}

/// The components that are complete stay what they are when a line
/// follows.
proof fn lemma_components_stay(
    parent_dir: Seq<char>,
    sig: Seq<Seq<char>>,
    line: Seq<char>,
    files: Seq<SourceFileView>,
)
    ensures
        forall|i: int|
            0 <= i < components_after(sig.len()) ==> #[trigger] component_at(
                parent_dir,
                sig.push(line),
                i,
                files,
            ) == component_at(parent_dir, sig, i, files),
        forall|i: int|
            0 <= i < components_after(sig.len()) ==> #[trigger] component_ok(
                parent_dir,
                sig.push(line),
                i,
                files,
            ) == component_ok(parent_dir, sig, i, files),
{
    reveal(component_at);
    let more = sig.push(line);
    assert forall|i: int| 0 <= i < components_after(sig.len()) implies #[trigger] component_at(
        parent_dir,
        more,
        i,
        files,
    ) == component_at(parent_dir, sig, i, files) && component_ok(parent_dir, more, i, files)
        == component_ok(parent_dir, sig, i, files) by {
        assert(sig[7 + 5 * i] == more[7 + 5 * i]);
        assert(sig[8 + 5 * i] == more[8 + 5 * i]);
        assert(sig[9 + 5 * i] == more[9 + 5 * i]);
        assert(sig[10 + 5 * i] == more[10 + 5 * i]);
        assert(sig[11 + 5 * i] == more[11 + 5 * i]);
    }
}

/// One more line of the header.
proof fn lemma_header_line(
    filename: Seq<char>,
    sig: Seq<Seq<char>>,
    line_no: usize,
    line: Seq<char>,
    files: Seq<SourceFileView>,
)
    requires
        accepted(parent_dir_of(filename), sig, files),
        significant(line),
        sig.len() < 7,
    ensures
        one_more_line(filename, sig, line_no, line, files),
{
    reveal(step);
    reveal(opened);
    reveal(is_number);
    reveal(number_of);
    let p = reader_at(filename, sig, files);
    let more = sig.push(line);
    let r = feed_spec(p, line_no, line, handed(p, line, files));
    assert(more[sig.len() as int] == line);
    assert(components_after(sig.len()) == 0);
    assert(components_after(more.len()) == 0);
    assert(p.module.components =~= Seq::empty());
    assert(reader_at(filename, more, files).module.components =~= Seq::empty());
    if let Some(Ok(q)) = r {
        assert(q.module.components =~= Seq::empty());
    }
}

/// One more line of a component, but its last.
proof fn lemma_component_line(
    filename: Seq<char>,
    sig: Seq<Seq<char>>,
    line_no: usize,
    line: Seq<char>,
    files: Seq<SourceFileView>,
)
    requires
        accepted(parent_dir_of(filename), sig, files),
        significant(line),
        sig.len() >= 7,
        (sig.len() - 7) % 5 != 4,
    ensures
        one_more_line(filename, sig, line_no, line, files),
{
    reveal(step);
    reveal(is_number);
    reveal(number_of);
    let parent_dir = parent_dir_of(filename);
    let p = reader_at(filename, sig, files);
    let more = sig.push(line);
    let r = feed_spec(p, line_no, line, handed(p, line, files));
    let c = components_after(sig.len()) as int;
    let base = 7 + 5 * c;
    lemma_components_stay(parent_dir, sig, line, files);
    assert(more[sig.len() as int] == line);
    assert(components_after(more.len()) == c);
    assert(base <= sig.len() < base + 4);
    assert(more[base] == if sig.len() == base {
        line
    } else {
        sig[base]
    });
    assert(sig.len() > base + 1 ==> more[base + 1] == sig[base + 1]);
    assert(sig.len() > base + 2 ==> more[base + 2] == sig[base + 2]);
    assert(reader_at(filename, more, files).module.components =~= p.module.components);
    if let Some(Ok(q)) = r {
        assert(q.module.components == p.module.components);
    }
}

/// The last line of a component is read with the file that it names, if
/// the component is a dropbox, and with none else.
proof fn lemma_end_step(p: ParserView, line_no: usize, line: Seq<char>, files: Seq<SourceFileView>)
    requires
        p.state == ReadState::ReadComponentDropboxEntriesAndEnd,
        significant(line),
    ensures
        feed_spec(p, line_no, line, handed(p, line, files)) == after_component_end(
            p,
            line_no,
            if reads_entries(p.component_kind) {
                opened(p.parent_dir, line, files)
            } else {
                None
            },
        ),
{
    reveal(step);
    reveal(opened);
}

/// The last line of a component: whether it is right.
proof fn lemma_component_end_accepted(
    parent_dir: Seq<char>,
    sig: Seq<Seq<char>>,
    line: Seq<char>,
    files: Seq<SourceFileView>,
)
    requires
        accepted(parent_dir, sig, files),
        sig.len() >= 7,
        (sig.len() - 7) % 5 == 4,
    ensures
        accepted(parent_dir, sig.push(line), files) == (component_at(
            parent_dir,
            sig.push(line),
            components_after(sig.len()) as int,
            files,
        ) matches Some(Ok(_))),
{
    let more = sig.push(line);
    let c = components_after(sig.len()) as int;
    let base = 7 + 5 * c;
    lemma_components_stay(parent_dir, sig, line, files);
    assert(sig.len() == base + 4);
    assert(components_after(more.len()) == c + 1);
    assert(more[0] == sig[0]);
    assert(more[2] == sig[2]);
    assert(more[3] == sig[3]);
    assert(more[4] == sig[4]);
    assert(more[5] == sig[5]);
    assert(more[6] == sig[6]);
    assert(more[base + 1] == sig[base + 1]);
    assert(more[base + 2] == sig[base + 2]);
    let built = component_at(parent_dir, more, c, files);
    assert(component_ok(parent_dir, more, c, files) == (built matches Some(Ok(_))));
    if built matches Some(Ok(_)) {
        assert forall|i: int| 0 <= i < c + 1 implies #[trigger] component_ok(
            parent_dir,
            more,
            i,
            files,
        ) by {
            if i < c {
                assert(component_ok(parent_dir, sig, i, files));
            }
        }
    }
    if accepted(parent_dir, more, files) {
        assert(component_ok(parent_dir, more, c, files));
    }
}

/// The last line of a component.
proof fn lemma_component_end(
    filename: Seq<char>,
    sig: Seq<Seq<char>>,
    line_no: usize,
    line: Seq<char>,
    files: Seq<SourceFileView>,
)
    requires
        accepted(parent_dir_of(filename), sig, files),
        significant(line),
        sig.len() >= 7,
        (sig.len() - 7) % 5 == 4,
    ensures
        one_more_line(filename, sig, line_no, line, files),
{
    let parent_dir = parent_dir_of(filename);
    let p = reader_at(filename, sig, files);
    let more = sig.push(line);
    let r = feed_spec(p, line_no, line, handed(p, line, files));
    let c = components_after(sig.len()) as int;
    let base = 7 + 5 * c;
    lemma_components_stay(parent_dir, sig, line, files);
    lemma_end_step(p, line_no, line, files);
    lemma_component_end_accepted(parent_dir, sig, line, files);
    assert(sig.len() == base + 4);
    assert(components_after(more.len()) == c + 1);
    assert(more[base] == sig[base]);
    assert(more[base + 1] == sig[base + 1]);
    assert(more[base + 2] == sig[base + 2]);
    assert(more[base + 3] == sig[base + 3]);
    assert(more[base + 4] == line);
    let file = if reads_entries(sig[base + 3]) {
        opened(parent_dir, line, files)
    } else {
        None
    };
    let built = component_at(parent_dir, more, c, files);
    assert(built == component(
        sig[base],
        number_of(sig[base + 1]),
        number_of(sig[base + 2]),
        sig[base + 3],
        file,
    )) by {
        reveal(component_at);
    }
    assert(r == after_component_end(p, line_no, file));
    assert((r matches Some(Ok(_))) == (built matches Some(Ok(_))));
    if let Some(Ok(q)) = r {
        let next = reader_at(filename, more, files);
        assert(more[1] == sig[1]);
        assert(more[2] == sig[2]);
        assert(more[3] == sig[3]);
        assert(more[4] == sig[4]);
        assert(more[5] == sig[5]);
        assert(more[6] == sig[6]);
        assert(q.module.components =~= next.module.components);
        assert(q.module == next.module);
        assert(q.state == next.state);
        assert(q == next);
    }
}

/// One more line. The reader that has read `sig` reads a further line that
/// counts without error exactly if that line is right in its place, and
/// then it is the reader that has read `sig` and that line.
proof fn lemma_one_more_line(
    filename: Seq<char>,
    sig: Seq<Seq<char>>,
    line_no: usize,
    line: Seq<char>,
    files: Seq<SourceFileView>,
)
    requires
        accepted(parent_dir_of(filename), sig, files),
        significant(line),
    ensures
        one_more_line(filename, sig, line_no, line, files),
{
    if sig.len() < 7 {
        lemma_header_line(filename, sig, line_no, line, files);
    } else if (sig.len() - 7) % 5 != 4 {
        lemma_component_line(filename, sig, line_no, line, files);
    } else {
        lemma_component_end(filename, sig, line_no, line, files);
    }
}

/// The reader after `n` lines, line by line. No error has stopped the
/// reader exactly if each of the lines that count is right in its place,
/// and then the reader holds what these lines say.
pub proof fn lemma_reader_at(
    filename: Seq<char>,
    lines: Seq<Seq<char>>,
    files: Seq<SourceFileView>,
    n: nat,
)
    ensures
        (run(filename, lines, files, n) matches Some(Ok(_))) == accepted(
            parent_dir_of(filename),
            counted(lines, n),
            files,
        ),
        run(filename, lines, files, n) matches Some(Ok(p)) ==> p == reader_at(
            filename,
            counted(lines, n),
            files,
        ),
    decreases n,
{
    if n == 0 {
        assert(reader_at(filename, counted(lines, 0), files).module.components =~= Seq::empty());
    } else {
        let before = (n - 1) as nat;
        let line = lines[n - 1];
        let sig = counted(lines, before);
        lemma_reader_at(filename, lines, files, before);
        if significant(line) {
            if accepted(parent_dir_of(filename), sig, files) {
                lemma_one_more_line(filename, sig, n as usize, line, files);
            } else {
                if accepted(parent_dir_of(filename), sig.push(line), files) {
                    lemma_accepted_before(parent_dir_of(filename), sig, line, files);
                }
            }
        }
    }
}

/// A module is read exactly if its lines are right. Reading the lines of a
/// module file gives a module exactly if the file was read to its end, the
/// lines that count make a whole module, and each of them is right in its
/// place; and the module is then the one that these lines describe.
pub proof fn lemma_module_of(
    filename: Seq<char>,
    lines: Seq<Seq<char>>,
    failure: Option<IoFailure>,
    files: Seq<SourceFileView>,
)
    ensures
        ({
            let sig = counted(lines, lines.len());
            let parsed = parse_lines(filename, lines, failure, files);
            &&& (parsed matches Some(Ok(_))) == (failure is None && whole(sig.len()) && accepted(
                parent_dir_of(filename),
                sig,
                files,
            ))
            &&& parsed matches Some(Ok(m)) ==> m == module_of(filename, sig, files)
        }),
{
    lemma_reader_at(filename, lines, files, lines.len());
}

} // verus!
