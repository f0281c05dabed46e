//! The options of the reader.

use vstd::prelude::*;
use vstd::string::*;

verus! {

/// The options of the reader.
#[derive(Debug, PartialEq, Eq)]
pub struct ParserConfig {
    /// Remove white space from both ends of character data.
    pub trim_whitespace: bool,
    /// Report runs of white space as character data.
    pub whitespace_to_characters: bool,
    /// Report the contents of CDATA sections as character data.
    pub cdata_to_characters: bool,
    /// Drop comments.
    pub ignore_comments: bool,
    /// Merge adjacent runs of text into one event.
    pub coalesce_characters: bool,
    /// Drop white space outside the root element.
    pub ignore_root_level_whitespace: bool,
    /// Streaming: the end of the source within the document is an error that
    /// passes once the source has been refilled.
    pub ignore_end_of_stream: bool,
    /// Accept every version number of the form `1.x`, not only `1.0` and `1.1`.
    pub allow_any_minor_version: bool,
    /// Allow more than one element at the top of the document.
    pub allow_multiple_root_elements: bool,
    /// How many entity expansions may be under way at once.
    pub max_entity_expansion_depth: u8,
    /// How many characters of expanded entities may wait to be read when
    /// another entity is expanded.
    pub max_entity_expansion_length: usize,
    /// The largest length of a name.
    pub max_name_length: usize,
    /// The largest number of attributes of one element.
    pub max_attributes: usize,
    /// The largest length of an attribute value.
    pub max_attribute_length: usize,
    /// The largest length of character data, a comment or an instruction.
    pub max_data_length: usize,
    /// Entities that are defined before reading starts, each a name and its
    /// replacement text.
    pub extra_entities: Vec<(String, String)>,
}

impl ParserConfig {
    /// Whether these are the default options: text is reported as it
    /// stands, comments are reported, adjacent text is merged, white space
    /// outside the root element is dropped, the end of the source ends the
    /// document, every version `1.x` is accepted, and no entity is defined.
    pub open spec fn is_default(&self) -> bool {
        &&& !self.trim_whitespace
        &&& !self.whitespace_to_characters
        &&& !self.cdata_to_characters
        &&& !self.ignore_comments
        &&& self.coalesce_characters
        &&& self.ignore_root_level_whitespace
        &&& !self.ignore_end_of_stream
        &&& self.allow_any_minor_version
        &&& self.allow_multiple_root_elements
        &&& self.max_entity_expansion_depth == 10
        &&& self.max_entity_expansion_length == 50_000
        &&& self.max_name_length == 262_144
        &&& self.max_attributes == 65_536
        &&& self.max_attribute_length == 1_073_741_824
        &&& self.max_data_length == 1_073_741_824
        &&& self.extra_entities@.len() == 0
    }

    /// The default options.
    pub fn new() -> (c: ParserConfig)
        ensures
            c.is_default(),
    {
        ParserConfig {
            trim_whitespace: false,
            whitespace_to_characters: false,
            cdata_to_characters: false,
            ignore_comments: false,
            coalesce_characters: true,
            ignore_root_level_whitespace: true,
            ignore_end_of_stream: false,
            allow_any_minor_version: true,
            allow_multiple_root_elements: true,
            max_entity_expansion_depth: 10,
            max_entity_expansion_length: 50_000,
            max_name_length: 262_144,
            max_attributes: 65_536,
            max_attribute_length: 1_073_741_824,
            max_data_length: 1_073_741_824,
            extra_entities: Vec::new(),
        }
    }
}

impl Default for ParserConfig {
    fn default() -> (c: ParserConfig)
        ensures
            c.is_default(),
    {
        ParserConfig::new()
    }
}

} // verus!
