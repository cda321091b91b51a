//! The description of a module once it is read: plain data, with the
//! mathematical value that the contracts speak of.

use vstd::prelude::*;
use std::collections::BTreeMap;

verus! {

/// How the number in a field is shown. The reader carries it and never
/// evaluates it.
#[derive(Debug, Clone, Copy, PartialEq, Eq, Structural)]
pub enum NumberFormat {
    Hex,
    Dec,
    DecSigned,
}

/// How the bytes of a field are interpreted.
#[derive(Debug, PartialEq)]
pub enum ComponentKind {
    /// Characters, through the module's charset if it has one.
    Text,
    /// Raw bytes, shown in hexadecimal.
    HexArray,
    /// A number.
    Number(NumberFormat),
    /// A number that is looked up in a list of values and labels. A value
    /// may occur more than once; the order is that of the declaration.
    Dropbox(NumberFormat, Vec<(u32, String)>),
}

/// One named field of an entry.
#[derive(Debug, PartialEq)]
pub struct Component {
    pub description: String,
    pub offset: u32,
    pub length: u32,
    pub kind: ComponentKind,
}

/// A module: where its table of entries lies and what each entry holds.
#[derive(Debug, PartialEq)]
pub struct Module {
    pub description: String,
    pub root_offset: u32,
    pub entry_count: u32,
    pub entry_length: u32,
    /// The names of the entries, where the module refers to a file of them.
    pub entry_names: Option<Vec<String>>,
    /// The character shown for a byte, where the module refers to a charset.
    pub charset: Option<BTreeMap<u8, char>>,
    /// The fields of an entry, in the order of their declaration.
    pub components: Vec<Component>,
}

/// The value of a [`ComponentKind`].
pub enum ComponentKindView {
    Text,
    HexArray,
    Number(NumberFormat),
    Dropbox(NumberFormat, Seq<(u32, Seq<char>)>),
}

/// The value of a [`Component`].
pub struct ComponentView {
    pub description: Seq<char>,
    pub offset: u32,
    pub length: u32,
    pub kind: ComponentKindView,
}

/// The value of a [`Module`].
pub struct ModuleView {
    pub description: Seq<char>,
    pub root_offset: u32,
    pub entry_count: u32,
    pub entry_length: u32,
    pub entry_names: Option<Seq<Seq<char>>>,
    pub charset: Option<Map<u8, char>>,
    pub components: Seq<ComponentView>,
}

impl View for ComponentKind {
    type V = ComponentKindView;

    open spec fn view(&self) -> ComponentKindView {
        match self {
            ComponentKind::Text => ComponentKindView::Text,
            ComponentKind::HexArray => ComponentKindView::HexArray,
            ComponentKind::Number(format) => ComponentKindView::Number(*format),
            ComponentKind::Dropbox(format, entries) => ComponentKindView::Dropbox(
                *format,
                entries.deep_view(),
            ),
        }
    }
}

impl View for Component {
    type V = ComponentView;

    open spec fn view(&self) -> ComponentView {
        ComponentView {
            description: self.description@,
            offset: self.offset,
            length: self.length,
            kind: self.kind@,
        }
    }
}

impl DeepView for Component {
    type V = ComponentView;

    open spec fn deep_view(&self) -> ComponentView {
        self@
    }
}

impl View for Module {
    type V = ModuleView;

    open spec fn view(&self) -> ModuleView {
        ModuleView {
            description: self.description@,
            root_offset: self.root_offset,
            entry_count: self.entry_count,
            entry_length: self.entry_length,
            entry_names: self.entry_names.deep_view(),
            charset: match self.charset {
                Some(charset) => Some(charset@),
                None => None,
            },
            components: self.components.deep_view(),
        }
    }
}

impl DeepView for Module {
    type V = ModuleView;

    open spec fn deep_view(&self) -> ModuleView {
        self@
    }
}

/// The module of which nothing has been read yet.
pub open spec fn empty_module() -> ModuleView {
    ModuleView {
        description: Seq::empty(),
        root_offset: 0,
        entry_count: 0,
        entry_length: 0,
        entry_names: None,
        charset: None,
        components: Seq::empty(),
    }
}

impl Default for Module {
    fn default() -> (m: Module)
        ensures
            m@ == empty_module(),
    {
        let m = Module {
            description: String::new(),
            root_offset: 0,
            entry_count: 0,
            entry_length: 0,
            entry_names: None,
            charset: None,
            components: Vec::new(),
        };
        assert(m.components.deep_view() =~= Seq::empty());
        m
    }
}

} // verus!
