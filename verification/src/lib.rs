//! A pull-based XML reader and a streaming XML writer.
//!
//! The reader turns bytes into characters, characters into tokens and tokens
//! into events; the writer turns events back into text.  Both sides share the
//! name, attribute and namespace model defined at the crate root.

pub mod attribute;
pub mod common;
pub mod escape;
pub mod name;
pub mod namespace;
pub mod reader;
pub mod text;
pub mod util;
pub mod writer;

pub use crate::reader::{EventReader, ParserConfig};
pub use crate::util::Encoding;
pub use crate::writer::{EmitterConfig, EventWriter};
