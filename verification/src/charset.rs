//! Charsets: which character is shown for a byte, one `code=character`
//! line per byte, the code in hexadecimal.

use vstd::prelude::*;
use vstd::string::StrSliceExecFns;
use std::collections::BTreeMap;
use crate::error::located;
use crate::error::located_at;
use crate::error::Error;
use crate::error::ErrorView;
use crate::number::radix_parse;
use crate::source::SourceFile;
use crate::source::SourceFileView;
use crate::text::after;
use crate::text::before;
use crate::text::find_char;
use crate::text::lemma_position;
use crate::text::trimmed;

verus! {

/// What one charset line holds. The line is split at its first `=`, and a
/// line without one is malformed. What stands before it is the code,
/// always in base 16, of which the low eight bits count. The first
/// character after it, whitespace aside, is the character shown, which may
/// itself be `=`; where there is none, the null character is.
pub open spec fn charset_line(line: Seq<char>) -> Result<(u8, char), ErrorView> {
    let text = trimmed(line);
    let shown = trimmed(after(text, '='));
    if !text.contains('=') {
        Err(ErrorView::InvalidCharset)
    } else {
        match radix_parse(trimmed(before(text, '=')), 16) {
            Err(e) => Err(ErrorView::ParseInt { source: e }),
            Ok(code) => Ok(
                (
                    (code % 256) as u8,
                    if shown.len() == 0 {
                        0 as char
                    } else {
                        shown[0]
                    },
                ),
            ),
        }
    }
}

/// The charset that the first `n` lines of `file` give, or the error of the
/// first line among them that is wrong. A later line for a byte replaces an
/// earlier one.
pub open spec fn charset_upto(file: SourceFileView, n: nat) -> Result<Map<u8, char>, ErrorView>
    decreases n,
{
    if n == 0 {
        Ok(Map::empty())
    } else {
        match charset_upto(file, (n - 1) as nat) {
            Err(e) => Err(e),
            Ok(so_far) => match charset_line(file.lines[n - 1]) {
                Err(e) => Err(located_at(file.name, n as usize, e)),
                Ok((code, shown)) => Ok(so_far.insert(code, shown)),
            },
        }
    }
}

/// The charset that `file` gives. Every line counts, blank ones too. The
/// first wrong line ends the reading; a failure of the file itself comes
/// after its last line.
pub open spec fn charset(file: SourceFileView) -> Result<Map<u8, char>, ErrorView> {
    match charset_upto(file, file.lines.len()) {
        Err(e) => Err(e),
        Ok(map) => match file.failure {
            Some(io) => Err(ErrorView::Io { source: io }),
            None => Ok(map),
        },
    }
}

/// Once a line is wrong, further lines change nothing.
pub proof fn lemma_charset_stopped(file: SourceFileView, n: nat, m: nat)
    requires
        n <= m,
        charset_upto(file, n) is Err,
    ensures
        charset_upto(file, m) == charset_upto(file, n),
    decreases m,
{
    if n < m {
        lemma_charset_stopped(file, n, (m - 1) as nat);
    }
}

/// The byte that a charset line is for, where the line is well formed.
pub open spec fn code_of(line: Seq<char>) -> u8 {
    charset_line(line)->Ok_0.0
}

/// The character that a charset line shows, where the line is well formed.
pub open spec fn shown_by(line: Seq<char>) -> char {
    charset_line(line)->Ok_0.1
}

/// The charset of the first `n` lines, where all of them are well formed,
/// holds a byte exactly if one of these lines is for it, and shows for it
/// what the last such line shows.
proof fn lemma_charset_upto(file: SourceFileView, n: nat)
    requires
        n <= file.lines.len(),
        charset_upto(file, n) is Ok,
    ensures
        forall|j: int| 0 <= j < n ==> charset_line(#[trigger] file.lines[j]) is Ok,
        forall|b: u8|
            charset_upto(file, n)->Ok_0.contains_key(b) <==> exists|j: int|
                0 <= j < n && code_of(#[trigger] file.lines[j]) == b,
        forall|i: int|
            0 <= i < n && (forall|j: int| i < j < n ==> code_of(#[trigger] file.lines[j]) != code_of(
                file.lines[i],
            )) ==> charset_upto(file, n)->Ok_0[code_of(file.lines[i])] == shown_by(
                #[trigger] file.lines[i],
            ),
    decreases n,
{
    if n > 0 {
        let m = (n - 1) as nat;
        lemma_charset_upto(file, m);
        let before = charset_upto(file, m)->Ok_0;
        let now = charset_upto(file, n)->Ok_0;
        let last = file.lines[m as int];
        assert(now == before.insert(code_of(last), shown_by(last)));
        assert forall|b: u8| now.contains_key(b) <==> exists|j: int|
            0 <= j < n && code_of(#[trigger] file.lines[j]) == b by {
            if now.contains_key(b) {
                if b == code_of(last) {
                    assert(code_of(file.lines[m as int]) == b);
                } else {
                    let j = choose|j: int| 0 <= j < m && code_of(#[trigger] file.lines[j]) == b;
                    assert(0 <= j < n && code_of(file.lines[j]) == b);
                }
            }
            if exists|j: int| 0 <= j < n && code_of(#[trigger] file.lines[j]) == b {
                let j = choose|j: int| 0 <= j < n && code_of(#[trigger] file.lines[j]) == b;
                if j < m {
                    assert(before.contains_key(b));
                }
            }
        }
        assert forall|i: int|
            0 <= i < n && (forall|j: int| i < j < n ==> code_of(#[trigger] file.lines[j]) != code_of(
                file.lines[i],
            )) implies now[code_of(file.lines[i])] == shown_by(#[trigger] file.lines[i]) by {
            if i < m {
                assert(code_of(file.lines[m as int]) != code_of(file.lines[i]));
                assert forall|j: int| i < j < m implies code_of(#[trigger] file.lines[j])
                    != code_of(file.lines[i]) by {}
            }
        }
    }
}

/// Last write wins. In a charset that is read without error every line is
/// well formed; the charset holds a byte exactly if some line is for it;
/// and a line that no later line for the same byte follows decides what is
/// shown for that byte.
pub proof fn lemma_charset_last_line_wins(file: SourceFileView)
    requires
        charset(file) is Ok,
    ensures
        file.failure is None,
        forall|j: int| 0 <= j < file.lines.len() ==> charset_line(#[trigger] file.lines[j]) is Ok,
        forall|b: u8|
            charset(file)->Ok_0.contains_key(b) <==> exists|j: int|
                0 <= j < file.lines.len() && code_of(#[trigger] file.lines[j]) == b,
        forall|i: int|
            0 <= i < file.lines.len() && (forall|j: int|
                i < j < file.lines.len() ==> code_of(#[trigger] file.lines[j]) != code_of(
                    file.lines[i],
                )) ==> charset(file)->Ok_0[code_of(file.lines[i])] == shown_by(
                #[trigger] file.lines[i],
            ),
{
    lemma_charset_upto(file, file.lines.len());
}

/// Whether an outcome of the reader is the value of a result.
pub open spec fn same_charset(
    r: Result<BTreeMap<u8, char>, Error>,
    s: Result<Map<u8, char>, ErrorView>,
) -> bool {
    match r {
        Ok(map) => s == Ok::<Map<u8, char>, ErrorView>(map@),
        Err(e) => s == Err::<Map<u8, char>, ErrorView>(e@),
    }
}

/// Reads a charset.
pub fn read_charset(file: &SourceFile) -> (r: Result<BTreeMap<u8, char>, Error>)
    ensures
        same_charset(r, charset(file@)),
{
    let mut result: BTreeMap<u8, char> = BTreeMap::new();
    let mut i: usize = 0;
    while i < file.lines.len()
        invariant
            i <= file.lines.len(),
            charset_upto(file@, i as nat) == Ok::<Map<u8, char>, ErrorView>(result@),
        decreases file.lines.len() - i,
    {
        let ghost total = file@.lines.len();
        let line = file.lines[i].as_str().trim();
        assert(line@ == trimmed(file@.lines[i as int]));
        let length = line.unicode_len();
        proof {
            lemma_position(line@, '=');
        }
        match find_char(line, '=') {
            None => {
                proof {
                    lemma_charset_stopped(file@, (i + 1) as nat, total);
                }
                return Err(located(file.name.as_str(), i + 1, Error::InvalidCharset));
            },
            Some(cut) => {
                let shown = line.substring_char(cut + 1, length).trim();
                match u32::from_str_radix(line.substring_char(0, cut).trim(), 16) {
                    Err(e) => {
                        proof {
                            lemma_charset_stopped(file@, (i + 1) as nat, total);
                        }
                        return Err(
                            located(file.name.as_str(), i + 1, Error::ParseInt { source: e }),
                        );
                    },
                    Ok(code) => {
                        let character = if shown.unicode_len() == 0 {
                            '\0'
                        } else {
                            shown.get_char(0)
                        };
                        result.insert((code % 256) as u8, character);
                    },
                }
            },
        }
        i = i + 1;
    }
    match file.failure {
        Some(io) => Err(Error::Io { source: io }),
        None => Ok(result),
    }
}

} // verus!
