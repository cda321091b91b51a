//! Components: from the four-letter token of a kind to the kind.

use vstd::prelude::*;
use crate::dropbox::dropbox_entries;
use crate::dropbox::read_component_dropbox_entries;
use crate::error::outcome;
use crate::error::Error;
use crate::error::ErrorView;
use crate::model::Component;
use crate::model::ComponentKind;
use crate::model::ComponentKindView;
use crate::model::ComponentView;
use crate::model::NumberFormat;
use crate::source::SourceFile;
use crate::source::SourceFileView;
use crate::text::same_text;
use crate::text::trimmed;

verus! {

/// The kind that a token names, for the kinds that need no list of entries.
pub open spec fn plain_kind(token: Seq<char>) -> Option<ComponentKindView> {
    if token == "TEXT"@ {
        Some(ComponentKindView::Text)
    } else if token == "HEXA"@ {
        Some(ComponentKindView::HexArray)
    } else if token == "NEHU"@ {
        Some(ComponentKindView::Number(NumberFormat::Hex))
    } else if token == "NEDU"@ {
        Some(ComponentKindView::Number(NumberFormat::Dec))
    } else if token == "NEDS"@ {
        Some(ComponentKindView::Number(NumberFormat::DecSigned))
    } else {
        None
    }
}

/// The number format of a dropbox, for the tokens that name one.
pub open spec fn dropbox_format(token: Seq<char>) -> Option<NumberFormat> {
    if token == "NDHU"@ {
        Some(NumberFormat::Hex)
    } else if token == "NDDU"@ {
        Some(NumberFormat::Dec)
    } else {
        None
    }
}

/// Whether a component of this kind reads a list of dropbox entries.
pub open spec fn reads_entries(kind_str: Seq<char>) -> bool {
    plain_kind(trimmed(kind_str)) is None && dropbox_format(trimmed(kind_str)) is Some
}

/// The component that a description, an offset, a length and the token of
/// a kind make. A dropbox takes its entries from `file`, which no other kind
/// looks at. A token that names no kind is an error, which the builder
/// cannot place: the reader of the module file places it on the line that
/// ends the component. An error of the entries has its place in their file.
/// `None` where the entries cannot be read.
#[verifier::opaque]
pub open spec fn component(
    description: Seq<char>,
    offset: u32,
    length: u32,
    kind_str: Seq<char>,
    file: Option<SourceFileView>,
) -> Option<Result<ComponentView, ErrorView>> {
    let token = trimmed(kind_str);
    match plain_kind(token) {
        Some(kind) => Some(Ok(ComponentView { description, offset, length, kind })),
        None => match dropbox_format(token) {
            None => Some(Err(ErrorView::InvalidComponentKind)),
            Some(format) => match dropbox_entries(file) {
                None => None,
                Some(Err(e)) => Some(Err(e)),
                Some(Ok(entries)) => Some(
                    Ok(
                        ComponentView {
                            description,
                            offset,
                            length,
                            kind: ComponentKindView::Dropbox(format, entries),
                        },
                    ),
                ),
            },
        },
    }
}

/// Whether `token` is one of the seven tokens that name a kind.
pub open spec fn is_kind_token(token: Seq<char>) -> bool {
    ||| token == "TEXT"@
    ||| token == "HEXA"@
    ||| token == "NEHU"@
    ||| token == "NEDU"@
    ||| token == "NEDS"@
    ||| token == "NDHU"@
    ||| token == "NDDU"@
}

/// The seven tokens differ from each other, so each names the kind that
/// stands beside it in the table, and the two dropbox tokens name no plain
/// kind.
pub proof fn lemma_kind_tokens()
    ensures
        plain_kind("TEXT"@) == Some(ComponentKindView::Text),
        plain_kind("HEXA"@) == Some(ComponentKindView::HexArray),
        plain_kind("NEHU"@) == Some(ComponentKindView::Number(NumberFormat::Hex)),
        plain_kind("NEDU"@) == Some(ComponentKindView::Number(NumberFormat::Dec)),
        plain_kind("NEDS"@) == Some(ComponentKindView::Number(NumberFormat::DecSigned)),
        plain_kind("NDHU"@) is None,
        plain_kind("NDDU"@) is None,
        dropbox_format("NDHU"@) == Some(NumberFormat::Hex),
        dropbox_format("NDDU"@) == Some(NumberFormat::Dec),
{
    reveal_strlit("TEXT");
    reveal_strlit("HEXA");
    reveal_strlit("NEHU");
    reveal_strlit("NEDU");
    reveal_strlit("NEDS");
    reveal_strlit("NDHU");
    reveal_strlit("NDDU");
    assert("TEXT"@[0] != "HEXA"@[0]);
    assert("TEXT"@[0] != "NEHU"@[0]);
    assert("HEXA"@[0] != "NEHU"@[0]);
    assert("NEHU"@[2] != "NEDU"@[2]);
    assert("NEHU"@[2] != "NEDS"@[2]);
    assert("NEDU"@[3] != "NEDS"@[3]);
    assert("NDHU"@[1] != "NEHU"@[1]);
    assert("NDDU"@[1] != "NEDU"@[1]);
    assert("NDHU"@[2] != "NDDU"@[2]);
}

/// A token that is none of the seven makes no component: the result is the
/// error for an unknown kind, whatever the other arguments are, and no list
/// of entries is read.
pub proof fn lemma_unknown_kind(
    description: Seq<char>,
    offset: u32,
    length: u32,
    kind_str: Seq<char>,
    file: Option<SourceFileView>,
)
    requires
        !is_kind_token(trimmed(kind_str)),
    ensures
        component(description, offset, length, kind_str, file) == Some(
            Err::<ComponentView, ErrorView>(ErrorView::InvalidComponentKind),
        ),
        !reads_entries(kind_str),
{
    reveal(component);
}

/// A token that is one of the seven makes a component of its kind, unless
/// it is a dropbox whose entries cannot be read or are wrong. Only a
/// dropbox reads the list of entries.
pub proof fn lemma_known_kind(
    description: Seq<char>,
    offset: u32,
    length: u32,
    kind_str: Seq<char>,
    file: Option<SourceFileView>,
)
    requires
        is_kind_token(trimmed(kind_str)),
    ensures
        reads_entries(kind_str) <==> (trimmed(kind_str) == "NDHU"@ || trimmed(kind_str)
            == "NDDU"@),
        !reads_entries(kind_str) ==> component(description, offset, length, kind_str, file)
            == Some(
            Ok::<ComponentView, ErrorView>(
                ComponentView {
                    description,
                    offset,
                    length,
                    kind: plain_kind(trimmed(kind_str))->0,
                },
            ),
        ),
        dropbox_entries(file) matches Some(Ok(entries)) ==> reads_entries(kind_str)
            ==> component(description, offset, length, kind_str, file) == Some(
            Ok::<ComponentView, ErrorView>(
                ComponentView {
                    description,
                    offset,
                    length,
                    kind: ComponentKindView::Dropbox(
                        dropbox_format(trimmed(kind_str))->0,
                        entries,
                    ),
                },
            ),
        ),
{
    reveal(component);
    lemma_kind_tokens();
}

/// The kind that a token names, for the kinds that need no list of entries.
pub fn plain_kind_of(token: &str) -> (r: Option<ComponentKind>)
    ensures
        r matches Some(kind) ==> plain_kind(token@) == Some(kind@),
        r is None ==> plain_kind(token@) is None,
{
    if same_text(token, "TEXT") {
        Some(ComponentKind::Text)
    } else if same_text(token, "HEXA") {
        Some(ComponentKind::HexArray)
    } else if same_text(token, "NEHU") {
        Some(ComponentKind::Number(NumberFormat::Hex))
    } else if same_text(token, "NEDU") {
        Some(ComponentKind::Number(NumberFormat::Dec))
    } else if same_text(token, "NEDS") {
        Some(ComponentKind::Number(NumberFormat::DecSigned))
    } else {
        None
    }
}

/// The number format of a dropbox, for the tokens that name one.
pub fn dropbox_format_of(token: &str) -> (r: Option<NumberFormat>)
    ensures
        r == dropbox_format(token@),
{
    if same_text(token, "NDHU") {
        Some(NumberFormat::Hex)
    } else if same_text(token, "NDDU") {
        Some(NumberFormat::Dec)
    } else {
        None
    }
}

/// Builds a component. `dropbox_entry_file` is the list of entries that the
/// component refers to, if it refers to one; only a dropbox reads it. The
/// error for a kind that does not exist comes without a place, which the
/// caller adds.
pub fn build_component(
    description: String,
    offset: u32,
    length: u32,
    kind_str: &str,
    dropbox_entry_file: Option<&SourceFile>,
) -> (r: Result<Component, Error>)
    requires
        component(description@, offset, length, kind_str@, dropbox_entry_file.deep_view()) is Some,
    ensures
        component(description@, offset, length, kind_str@, dropbox_entry_file.deep_view())
            == Some(outcome(r)),
{
    reveal(component);
    let token = kind_str.trim();
    let kind = match plain_kind_of(token) {
        Some(kind) => kind,
        None => match dropbox_format_of(token) {
            None => {
                return Err(Error::InvalidComponentKind);
            },
            Some(format) => match read_component_dropbox_entries(dropbox_entry_file) {
                Ok(entries) => ComponentKind::Dropbox(format, entries),
                Err(e) => {
                    return Err(e);
                },
            },
        },
    };
    Ok(Component { description, offset, length, kind })
}

} // verus!
