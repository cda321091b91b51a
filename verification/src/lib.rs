//! Reader for module descriptions: line-oriented text files that say how a
//! table of fixed-length binary entries is laid out, field by field.
//!
//! The library opens no file. It is handed files as lines ([`SourceFile`])
//! and reads a module either in one call ([`from_file`], [`try_from_file`])
//! or line by line ([`Parser`]), in which case the caller fetches each
//! auxiliary file when the reader asks for it.

pub mod auxiliary;
pub mod charset;
pub mod component;
pub mod counting;
pub mod dropbox;
pub mod entries;
pub mod error;
pub mod layout;
pub mod model;
pub mod number;
pub mod parser;
pub mod path;
pub mod source;
pub mod text;

pub use crate::charset::read_charset;
pub use crate::component::build_component;
pub use crate::dropbox::entries_split;
pub use crate::dropbox::read_component_dropbox_entries;
pub use crate::entries::read_module_entries;
pub use crate::error::Error;
pub use crate::error::IoFailure;
pub use crate::model::Component;
pub use crate::model::ComponentKind;
pub use crate::model::Module;
pub use crate::model::NumberFormat;
pub use crate::number::parse_int;
pub use crate::parser::from_file;
pub use crate::parser::try_from_file;
pub use crate::parser::Parser;
pub use crate::parser::ReadState;
pub use crate::path::get_full_filename;
pub use crate::source::SourceFile;
