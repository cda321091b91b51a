//! The module file itself: a version line, six header lines, then five
//! lines for each component. Blank lines and lines that begin with `#` do
//! not count. The reader is a state machine with one transition for each
//! state. It is fed one line at a time and is handed, with the line, the
//! auxiliary file that the line refers to.

use vstd::prelude::*;
use vstd::string::StrSliceExecFns;
use crate::charset::charset;
use crate::charset::read_charset;
use crate::component::build_component;
use crate::component::component;
use crate::component::dropbox_format_of;
use crate::component::plain_kind_of;
use crate::component::reads_entries;
use crate::dropbox::entries_split;
use crate::dropbox::entries_upto;
use crate::entries::module_entries;
use crate::entries::read_module_entries;
use crate::error::located;
use crate::error::located_at;
use crate::error::outcome;
use crate::error::Error;
use crate::error::ErrorView;
use crate::error::IoFailure;
use crate::model::empty_module;
use crate::model::Module;
use crate::model::ModuleView;
use crate::number::parse_int;
use crate::number::parse_int_spec;
use crate::path::full_filename;
use crate::path::get_full_filename;
use crate::path::parent_dir;
use crate::path::parent_dir_of;
use crate::source::find_file;
use crate::source::lookup;
use crate::source::missing_file;
use crate::source::supplied;
use crate::source::SourceFile;
use crate::source::SourceFileView;
use crate::text::same_text;
use crate::text::trimmed;

verus! {

/// What the next line that counts is read as.
#[derive(Debug, Clone, Copy, PartialEq, Eq, Structural)]
pub enum ReadState {
    ReadVersion,
    ReadDescription,
    ReadRootOffset,
    ReadEntryCount,
    ReadEntryLength,
    ReadEntryNames,
    ReadCharset,
    ReadNextComponentDescription,
    ReadComponentOffset,
    ReadComponentLength,
    ReadComponentKind,
    ReadComponentDropboxEntriesAndEnd,
}

/// The reader of a module file between two lines.
#[derive(Debug, PartialEq)]
pub struct Parser {
    /// The name of the module file, for the places of errors.
    pub filename: String,
    /// The directory that auxiliary files are looked for in.
    pub parent_dir: String,
    pub state: ReadState,
    /// What has been read of the module.
    pub module: Module,
    /// What has been read of the component that is not complete yet.
    pub component_description: String,
    pub component_offset: u32,
    pub component_length: u32,
    pub component_kind: String,
}

/// The value of a [`Parser`].
pub struct ParserView {
    pub filename: Seq<char>,
    pub parent_dir: Seq<char>,
    pub state: ReadState,
    pub module: ModuleView,
    pub component_description: Seq<char>,
    pub component_offset: u32,
    pub component_length: u32,
    pub component_kind: Seq<char>,
}

impl View for Parser {
    type V = ParserView;

    open spec fn view(&self) -> ParserView {
        ParserView {
            filename: self.filename@,
            parent_dir: self.parent_dir@,
            state: self.state,
            module: self.module@,
            component_description: self.component_description@,
            component_offset: self.component_offset,
            component_length: self.component_length,
            component_kind: self.component_kind@,
        }
    }
}

impl DeepView for Parser {
    type V = ParserView;

    open spec fn deep_view(&self) -> ParserView {
        self@
    }
}

/// Whether a line counts: it is not blank, and `#` is not its first
/// character after leading whitespace.
pub open spec fn significant(line: Seq<char>) -> bool {
    trimmed(line).len() > 0 && trimmed(line)[0] != '#'
}

/// The reader before the first line of the module file `filename`.
pub open spec fn start(filename: Seq<char>) -> ParserView {
    ParserView {
        filename,
        parent_dir: parent_dir_of(filename),
        state: ReadState::ReadVersion,
        module: empty_module(),
        component_description: Seq::empty(),
        component_offset: 0,
        component_length: 0,
        component_kind: Seq::empty(),
    }
}

/// The auxiliary file that is read when `line` is fed to `p`, if one is:
/// the file that the line names, where the line stands for the entry names,
/// the charset, or the entries of a dropbox. `NULL` names no file.
pub open spec fn wanted(p: ParserView, line: Seq<char>) -> Option<Seq<char>> {
    if !significant(line) {
        None
    } else {
        match p.state {
            ReadState::ReadEntryNames | ReadState::ReadCharset => full_filename(
                p.parent_dir,
                trimmed(line),
            ),
            ReadState::ReadComponentDropboxEntriesAndEnd => if reads_entries(p.component_kind) {
                full_filename(p.parent_dir, trimmed(line))
            } else {
                None
            },
            _ => None,
        }
    }
}

/// The number that `text` denotes, or the error with its place: line
/// `line_no` of the module file.
pub open spec fn number_at(p: ParserView, line_no: usize, text: Seq<char>) -> Result<
    u32,
    ErrorView,
> {
    match parse_int_spec(text) {
        Ok(value) => Ok(value),
        Err(e) => Err(located_at(p.filename, line_no, e)),
    }
}

/// The version line: its text must be `1`. The error has no place.
pub open spec fn after_version(p: ParserView, text: Seq<char>) -> Result<ParserView, ErrorView> {
    if text == "1"@ {
        Ok(ParserView { state: ReadState::ReadDescription, ..p })
    } else {
        Err(ErrorView::InvalidModuleVersion)
    }
}

/// The description of the module: the line as it stands.
pub open spec fn after_description(p: ParserView, line: Seq<char>) -> ParserView {
    ParserView {
        state: ReadState::ReadRootOffset,
        module: ModuleView { description: line, ..p.module },
        ..p
    }
}

/// The offset of the table of entries.
pub open spec fn after_root_offset(p: ParserView, line_no: usize, text: Seq<char>) -> Result<
    ParserView,
    ErrorView,
> {
    match number_at(p, line_no, text) {
        Ok(value) => Ok(
            ParserView {
                state: ReadState::ReadEntryCount,
                module: ModuleView { root_offset: value, ..p.module },
                ..p
            },
        ),
        Err(e) => Err(e),
    }
}

/// The number of entries.
pub open spec fn after_entry_count(p: ParserView, line_no: usize, text: Seq<char>) -> Result<
    ParserView,
    ErrorView,
> {
    match number_at(p, line_no, text) {
        Ok(value) => Ok(
            ParserView {
                state: ReadState::ReadEntryLength,
                module: ModuleView { entry_count: value, ..p.module },
                ..p
            },
        ),
        Err(e) => Err(e),
    }
}

/// The length of an entry.
pub open spec fn after_entry_length(p: ParserView, line_no: usize, text: Seq<char>) -> Result<
    ParserView,
    ErrorView,
> {
    match number_at(p, line_no, text) {
        Ok(value) => Ok(
            ParserView {
                state: ReadState::ReadEntryNames,
                module: ModuleView { entry_length: value, ..p.module },
                ..p
            },
        ),
        Err(e) => Err(e),
    }
}

/// The names of the entries, from `file` if the line names one. Their
/// number is not held against the number of entries.
pub open spec fn after_entry_names(p: ParserView, file: Option<SourceFileView>) -> Result<
    ParserView,
    ErrorView,
> {
    match module_entries(file) {
        Ok(names) => Ok(
            ParserView {
                state: ReadState::ReadCharset,
                module: ModuleView { entry_names: names, ..p.module },
                ..p
            },
        ),
        Err(e) => Err(e),
    }
}

/// The charset, from `file` if the line names one.
pub open spec fn after_charset(p: ParserView, file: Option<SourceFileView>) -> Result<
    ParserView,
    ErrorView,
> {
    match file {
        None => Ok(ParserView { state: ReadState::ReadNextComponentDescription, ..p }),
        Some(f) => match charset(f) {
            Ok(map) => Ok(
                ParserView {
                    state: ReadState::ReadNextComponentDescription,
                    module: ModuleView { charset: Some(map), ..p.module },
                    ..p
                },
            ),
            Err(e) => Err(e),
        },
    }
}

/// The description of the next component: the line as it stands.
pub open spec fn after_component_description(p: ParserView, line: Seq<char>) -> ParserView {
    ParserView { state: ReadState::ReadComponentOffset, component_description: line, ..p }
}

/// The offset of the component in the entry.
pub open spec fn after_component_offset(p: ParserView, line_no: usize, text: Seq<char>) -> Result<
    ParserView,
    ErrorView,
> {
    match number_at(p, line_no, text) {
        Ok(value) => Ok(
            ParserView { state: ReadState::ReadComponentLength, component_offset: value, ..p },
        ),
        Err(e) => Err(e),
    }
}

/// The length of the component.
pub open spec fn after_component_length(p: ParserView, line_no: usize, text: Seq<char>) -> Result<
    ParserView,
    ErrorView,
> {
    match number_at(p, line_no, text) {
        Ok(value) => Ok(
            ParserView { state: ReadState::ReadComponentKind, component_length: value, ..p },
        ),
        Err(e) => Err(e),
    }
}

/// The kind of the component: the line as it stands. It is looked at when
/// the component is complete.
pub open spec fn after_component_kind(p: ParserView, line: Seq<char>) -> ParserView {
    ParserView {
        state: ReadState::ReadComponentDropboxEntriesAndEnd,
        component_kind: line,
        ..p
    }
}

/// The last line of a component, which is line `line_no` of the module
/// file. The component is built from what was read of it, with the entries
/// from `file` if it is a dropbox and the line names a file, and is added
/// behind the components read before. Nothing is kept of it in the reader.
/// A kind that does not exist is an error on this line; an error of the
/// entries keeps the place that it has in their file. `None` where the
/// entries cannot be read.
pub open spec fn after_component_end(
    p: ParserView,
    line_no: usize,
    file: Option<SourceFileView>,
) -> Option<Result<ParserView, ErrorView>> {
    match component(
        p.component_description,
        p.component_offset,
        p.component_length,
        p.component_kind,
        file,
    ) {
        None => None,
        Some(Err(ErrorView::InvalidComponentKind)) => Some(
            Err(located_at(p.filename, line_no, ErrorView::InvalidComponentKind)),
        ),
        Some(Err(e)) => Some(Err(e)),
        Some(Ok(c)) => Some(
            Ok(
                ParserView {
                    state: ReadState::ReadNextComponentDescription,
                    module: ModuleView { components: p.module.components.push(c), ..p.module },
                    component_description: Seq::empty(),
                    component_offset: 0,
                    component_length: 0,
                    component_kind: Seq::empty(),
                    ..p
                },
            ),
        ),
    }
}

/// One transition: what `p` becomes when it reads the line `line`, which
/// counts and is line `line_no` of the module file, with `file` the
/// auxiliary file that is opened for it, if one is. The version and the
/// numbers are read without surrounding whitespace.
#[verifier::opaque]
pub open spec fn step(p: ParserView, line_no: usize, line: Seq<char>, file: Option<SourceFileView>)
    -> Option<Result<ParserView, ErrorView>> {
    let text = trimmed(line);
    match p.state {
        ReadState::ReadVersion => Some(after_version(p, text)),
        ReadState::ReadDescription => Some(Ok(after_description(p, line))),
        ReadState::ReadRootOffset => Some(after_root_offset(p, line_no, text)),
        ReadState::ReadEntryCount => Some(after_entry_count(p, line_no, text)),
        ReadState::ReadEntryLength => Some(after_entry_length(p, line_no, text)),
        ReadState::ReadEntryNames => Some(after_entry_names(p, file)),
        ReadState::ReadCharset => Some(after_charset(p, file)),
        ReadState::ReadNextComponentDescription => Some(Ok(after_component_description(p, line))),
        ReadState::ReadComponentOffset => Some(after_component_offset(p, line_no, text)),
        ReadState::ReadComponentLength => Some(after_component_length(p, line_no, text)),
        ReadState::ReadComponentKind => Some(Ok(after_component_kind(p, line))),
        ReadState::ReadComponentDropboxEntriesAndEnd => after_component_end(p, line_no, file),
    }
}

/// What `p` becomes when it is fed line `line_no` of the module file, with
/// `aux` the auxiliary file that the caller found under the name
/// `wanted(p, line)`. A line that does not count changes nothing. A file
/// that is wanted and not supplied counts as not there. `None` where the
/// line refers to dropbox entries that cannot be read.
pub open spec fn feed_spec(
    p: ParserView,
    line_no: usize,
    line: Seq<char>,
    aux: Option<SourceFileView>,
) -> Option<Result<ParserView, ErrorView>> {
    if !significant(line) {
        Some(Ok(p))
    } else {
        step(
            p,
            line_no,
            line,
            match wanted(p, line) {
                Some(path) => Some(supplied(path, aux)),
                None => None,
            },
        )
    }
}

/// The module, when the file ends: it is complete only where the next line
/// would begin a component.
pub open spec fn finish_spec(p: ParserView) -> Result<ModuleView, ErrorView> {
    if p.state == ReadState::ReadNextComponentDescription {
        Ok(p.module)
    } else {
        Err(ErrorView::UnexpectedEof)
    }
}

/// The file that is handed to the reader with a line, where auxiliary
/// files are taken from `files`.
pub open spec fn handed(p: ParserView, line: Seq<char>, files: Seq<SourceFileView>) -> Option<
    SourceFileView,
> {
    match wanted(p, line) {
        Some(path) => lookup(files, path),
        None => None,
    }
}

/// The reader after the first `n` of `lines`, the lines of the module file
/// `filename`, where auxiliary files are taken from `files`. Lines are
/// numbered from 1.
pub open spec fn run(
    filename: Seq<char>,
    lines: Seq<Seq<char>>,
    files: Seq<SourceFileView>,
    n: nat,
) -> Option<Result<ParserView, ErrorView>>
    decreases n,
{
    if n == 0 {
        Some(Ok(start(filename)))
    } else {
        match run(filename, lines, files, (n - 1) as nat) {
            Some(Ok(p)) => feed_spec(p, n as usize, lines[n - 1], handed(p, lines[n - 1], files)),
            stopped => stopped,
        }
    }
}

/// The module that `lines` describe, as the lines of the module file
/// `filename`, the reading of which ended with `failure` if it ended
/// early. The lines are read in order and the first error ends the
/// reading; the failure of the module file itself comes after its last
/// line, and only then is the end of the file looked at. `None` where the
/// reading meets dropbox entries that cannot be read.
pub open spec fn parse_lines(
    filename: Seq<char>,
    lines: Seq<Seq<char>>,
    failure: Option<IoFailure>,
    files: Seq<SourceFileView>,
) -> Option<Result<ModuleView, ErrorView>> {
    match run(filename, lines, files, lines.len()) {
        None => None,
        Some(Err(e)) => Some(Err(e)),
        Some(Ok(p)) => Some(
            match failure {
                Some(io) => Err(ErrorView::Io { source: io }),
                None => finish_spec(p),
            },
        ),
    }
}

/// The module that the file `filename` among `files` describes. A module
/// file that is not among `files` is a file that is not there.
pub open spec fn parse_module(filename: Seq<char>, files: Seq<SourceFileView>) -> Option<
    Result<ModuleView, ErrorView>,
> {
    let module_file = supplied(filename, lookup(files, filename));
    parse_lines(filename, module_file.lines, module_file.failure, files)
}

/// Once the reader has stopped, further lines change nothing.
pub proof fn lemma_run_stopped(
    filename: Seq<char>,
    lines: Seq<Seq<char>>,
    files: Seq<SourceFileView>,
    n: nat,
    m: nat,
)
    requires
        n <= m,
        !(run(filename, lines, files, n) matches Some(Ok(_))),
    ensures
        run(filename, lines, files, m) == run(filename, lines, files, n),
    decreases m,
{
    if n < m {
        lemma_run_stopped(filename, lines, files, n, (m - 1) as nat);
    }
}

impl Parser {
    /// The reader before the first line of the module file `filename`.
    pub fn new(filename: &str) -> (p: Parser)
        ensures
            p@ == start(filename@),
    {
        Parser {
            filename: filename.to_owned(),
            parent_dir: parent_dir(filename),
            state: ReadState::ReadVersion,
            module: Module::default(),
            component_description: String::new(),
            component_offset: 0,
            component_length: 0,
            component_kind: String::new(),
        }
    }

    /// The name of the auxiliary file that is read when `line` is fed, if
    /// one is. The caller reads that file and hands it to `feed` with the
    /// line.
    pub fn wanted_file(&self, line: &str) -> (r: Option<String>)
        ensures
            r.deep_view() == wanted(self@, line@),
    {
        let text = line.trim();
        if text.is_empty() || text.get_char(0) == '#' {
            return None;
        }
        match self.state {
            ReadState::ReadEntryNames | ReadState::ReadCharset => get_full_filename(
                self.parent_dir.as_str(),
                text,
            ),
            ReadState::ReadComponentDropboxEntriesAndEnd => {
                let token = self.component_kind.as_str().trim();
                if plain_kind_of(token).is_none() && dropbox_format_of(token).is_some() {
                    get_full_filename(self.parent_dir.as_str(), text)
                } else {
                    None
                }
            },
            _ => None,
        }
    }

    /// Whether `line` can be fed with `aux`: it can unless it refers to
    /// dropbox entries that hold a number without a label.
    pub fn can_feed(&self, line: &str, aux: Option<&SourceFile>) -> (b: bool)
        ensures
            forall|line_no: usize|
                b == (#[trigger] feed_spec(self@, line_no, line@, aux.deep_view()) is Some),
    {
        reveal(step);
        reveal(component);
        match self.state {
            ReadState::ReadComponentDropboxEntriesAndEnd => match self.wanted_file(line) {
                Some(path) => match aux {
                    Some(f) => entries_split(f),
                    None => {
                        assert(entries_upto(missing_file(path@), 0) is Some);
                        true
                    },
                },
                None => true,
            },
            _ => true,
        }
    }

    /// Reads a number on line `line_no` of the module file.
    fn number(&self, line_no: usize, text: &str) -> (r: Result<u32, Error>)
        ensures
            outcome(r) == number_at(self@, line_no, text@),
    {
        match parse_int(text) {
            Ok(value) => Ok(value),
            Err(e) => Err(located(self.filename.as_str(), line_no, e)),
        }
    }

    /// The version line.
    fn read_version(self, text: &str) -> (r: Result<Parser, Error>)
        ensures
            outcome(r) == after_version(self@, text@),
    {
        if !same_text(text, "1") {
            return Err(Error::InvalidModuleVersion);
        }
        let mut next = self;
        next.state = ReadState::ReadDescription;
        Ok(next)
    }

    /// The description of the module.
    fn read_description(self, line: &str) -> (next: Parser)
        ensures
            next@ == after_description(self@, line@),
    {
        let mut next = self;
        next.module.description = line.to_owned();
        next.state = ReadState::ReadRootOffset;
        next
    }

    /// The offset of the table of entries.
    fn read_root_offset(self, line_no: usize, text: &str) -> (r: Result<Parser, Error>)
        ensures
            outcome(r) == after_root_offset(self@, line_no, text@),
    {
        let value = self.number(line_no, text)?;
        let mut next = self;
        next.module.root_offset = value;
        next.state = ReadState::ReadEntryCount;
        Ok(next)
    }

    /// The number of entries.
    fn read_entry_count(self, line_no: usize, text: &str) -> (r: Result<Parser, Error>)
        ensures
            outcome(r) == after_entry_count(self@, line_no, text@),
    {
        let value = self.number(line_no, text)?;
        let mut next = self;
        next.module.entry_count = value;
        next.state = ReadState::ReadEntryLength;
        Ok(next)
    }

    /// The length of an entry.
    fn read_entry_length(self, line_no: usize, text: &str) -> (r: Result<Parser, Error>)
        ensures
            outcome(r) == after_entry_length(self@, line_no, text@),
    {
        let value = self.number(line_no, text)?;
        let mut next = self;
        next.module.entry_length = value;
        next.state = ReadState::ReadEntryNames;
        Ok(next)
    }

    /// The names of the entries, from `file` if the line names one.
    fn read_entry_names(self, file: Option<&SourceFile>) -> (r: Result<Parser, Error>)
        ensures
            outcome(r) == after_entry_names(self@, file.deep_view()),
    {
        let names = read_module_entries(file)?;
        let mut next = self;
        next.module.entry_names = names;
        next.state = ReadState::ReadCharset;
        Ok(next)
    }

    /// The charset, from `file` if the line names one.
    fn read_charset(self, file: Option<&SourceFile>) -> (r: Result<Parser, Error>)
        ensures
            outcome(r) == after_charset(self@, file.deep_view()),
    {
        let mut next = self;
        if let Some(f) = file {
            let map = read_charset(f)?;
            next.module.charset = Some(map);
        }
        next.state = ReadState::ReadNextComponentDescription;
        Ok(next)
    }

    /// The description of the next component.
    fn read_next_component_description(self, line: &str) -> (next: Parser)
        ensures
            next@ == after_component_description(self@, line@),
    {
        let mut next = self;
        next.component_description = line.to_owned();
        next.state = ReadState::ReadComponentOffset;
        next
    }

    /// The offset of the component in the entry.
    fn read_component_offset(self, line_no: usize, text: &str) -> (r: Result<Parser, Error>)
        ensures
            outcome(r) == after_component_offset(self@, line_no, text@),
    {
        let value = self.number(line_no, text)?;
        let mut next = self;
        next.component_offset = value;
        next.state = ReadState::ReadComponentLength;
        Ok(next)
    }

    /// The length of the component.
    fn read_component_length(self, line_no: usize, text: &str) -> (r: Result<Parser, Error>)
        ensures
            outcome(r) == after_component_length(self@, line_no, text@),
    {
        let value = self.number(line_no, text)?;
        let mut next = self;
        next.component_length = value;
        next.state = ReadState::ReadComponentKind;
        Ok(next)
    }

    /// The kind of the component.
    fn read_component_kind(self, line: &str) -> (next: Parser)
        ensures
            next@ == after_component_kind(self@, line@),
    {
        let mut next = self;
        next.component_kind = line.to_owned();
        next.state = ReadState::ReadComponentDropboxEntriesAndEnd;
        next
    }

    /// The last line of a component, which is then built and added.
    fn read_component_dropbox_entries_and_end(
        self,
        line_no: usize,
        file: Option<&SourceFile>,
    ) -> (r: Result<Parser, Error>)
        requires
            after_component_end(self@, line_no, file.deep_view()) is Some,
        ensures
            after_component_end(self@, line_no, file.deep_view()) == Some(outcome(r)),
    {
        let mut next = self;
        let mut description = String::new();
        let mut kind = String::new();
        std::mem::swap(&mut next.component_description, &mut description);
        std::mem::swap(&mut next.component_kind, &mut kind);
        let built = match build_component(
            description,
            next.component_offset,
            next.component_length,
            kind.as_str(),
            file,
        ) {
            Ok(built) => built,
            Err(Error::InvalidComponentKind) => {
                return Err(
                    located(next.filename.as_str(), line_no, Error::InvalidComponentKind),
                );
            },
            Err(e) => {
                return Err(e);
            },
        };
        let ghost so_far = next.module.components.deep_view();
        next.module.components.push(built);
        assert(next.module.components.deep_view() =~= so_far.push(built@));
        next.component_offset = 0;
        next.component_length = 0;
        next.state = ReadState::ReadNextComponentDescription;
        Ok(next)
    }

    /// Reads one line of the module file. `line_no` is its number, counted
    /// from 1, and `aux` the file that `wanted_file` asks for, where the
    /// caller has it. Dropbox entries that hold a number without a label
    /// have no reading, and are ruled out.
    pub fn feed(self, line_no: usize, line: &str, aux: Option<&SourceFile>) -> (r: Result<
        Parser,
        Error,
    >)
        requires
            feed_spec(self@, line_no, line@, aux.deep_view()) is Some,
        ensures
            feed_spec(self@, line_no, line@, aux.deep_view()) == Some(outcome(r)),
    {
        let text = line.trim();
        if text.is_empty() || text.get_char(0) == '#' {
            return Ok(self);
        }
        let wanted_name = self.wanted_file(line);
        let absent = match (&wanted_name, aux) {
            (Some(path), None) => Some(SourceFile::missing(path.as_str())),
            _ => None,
        };
        let file = match (&wanted_name, aux) {
            (Some(_), Some(f)) => Some(f),
            (Some(_), None) => absent.as_ref(),
            (None, _) => None,
        };
        reveal(step);
        match self.state {
            ReadState::ReadVersion => self.read_version(text),
            ReadState::ReadDescription => Ok(self.read_description(line)),
            ReadState::ReadRootOffset => self.read_root_offset(line_no, text),
            ReadState::ReadEntryCount => self.read_entry_count(line_no, text),
            ReadState::ReadEntryLength => self.read_entry_length(line_no, text),
            ReadState::ReadEntryNames => self.read_entry_names(file),
            ReadState::ReadCharset => self.read_charset(file),
            ReadState::ReadNextComponentDescription => Ok(
                self.read_next_component_description(line),
            ),
            ReadState::ReadComponentOffset => self.read_component_offset(line_no, text),
            ReadState::ReadComponentLength => self.read_component_length(line_no, text),
            ReadState::ReadComponentKind => Ok(self.read_component_kind(line)),
            ReadState::ReadComponentDropboxEntriesAndEnd => {
                self.read_component_dropbox_entries_and_end(line_no, file)
            },
        }
    }

    /// The module, when the file has ended.
    pub fn finish(self) -> (r: Result<Module, Error>)
        ensures
            outcome(r) == finish_spec(self@),
    {
        match self.state {
            ReadState::ReadNextComponentDescription => Ok(self.module),
            _ => Err(Error::UnexpectedEof),
        }
    }
}

/// Reads the module that the file `filename` among `files` describes, if
/// it can be read. `files` holds every file that the reading may come to
/// open, the module file too, each under the name it is opened by; a name
/// that is not among them is a file that is not there. `None` where the
/// reading meets dropbox entries that hold a number without a label.
pub fn try_from_file(filename: &str, files: &Vec<SourceFile>) -> (r: Option<Result<Module, Error>>)
    ensures
        parse_module(filename@, files.deep_view()) == match r {
            Some(read) => Some(outcome(read)),
            None => None,
        },
{
    let missing = SourceFile::missing(filename);
    let module_file = match find_file(files, filename) {
        Some(f) => f,
        None => &missing,
    };
    let ghost lines = module_file@.lines;
    let ghost all = files.deep_view();
    let mut parser = Parser::new(filename);
    let mut i: usize = 0;
    while i < module_file.lines.len()
        invariant
            i <= module_file.lines.len(),
            lines == module_file@.lines,
            all == files.deep_view(),
            module_file@ == supplied(filename@, lookup(all, filename@)),
            run(filename@, lines, all, i as nat) == Some(Ok::<ParserView, ErrorView>(parser@)),
        decreases module_file.lines.len() - i,
    {
        let line = module_file.lines[i].as_str();
        let aux = match parser.wanted_file(line) {
            Some(path) => find_file(files, path.as_str()),
            None => None,
        };
        proof {
            if !(run(filename@, lines, all, (i + 1) as nat) matches Some(Ok(_))) {
                lemma_run_stopped(filename@, lines, all, (i + 1) as nat, lines.len());
            }
        }
        if !parser.can_feed(line, aux) {
            return None;
        }
        match parser.feed(i + 1, line, aux) {
            Ok(next) => {
                parser = next;
            },
            Err(e) => {
                return Some(Err(e));
            },
        }
        i = i + 1;
    }
    match module_file.failure {
        Some(io) => Some(Err(Error::Io { source: io })),
        None => Some(parser.finish()),
    }
}

/// Reads the module that the file `filename` among `files` describes.
/// `files` holds every file that the reading may come to open, the module
/// file too, each under the name it is opened by; a name that is not among
/// them is a file that is not there. Dropbox entries that hold a number
/// without a label have no reading, and are ruled out.
pub fn from_file(filename: &str, files: &Vec<SourceFile>) -> (r: Result<Module, Error>)
    requires
        parse_module(filename@, files.deep_view()) is Some,
    ensures
        parse_module(filename@, files.deep_view()) == Some(outcome(r)),
{
    match try_from_file(filename, files) {
        Some(read) => read,
        None => vstd::pervasive::unreached(),
    }
}

} // verus!
