//! The options of the writer.

use vstd::prelude::*;
use vstd::string::*;

verus! {

/// The options of the writer.
#[derive(Debug, PartialEq, Eq)]
pub struct EmitterConfig {
    /// What ends a line where the output is indented.
    pub line_separator: String,
    /// What one level of indentation is made of.
    pub indent_string: String,
    /// Put each piece of markup on a line of its own, indented by its depth.
    pub perform_indent: bool,
    /// Replace the characters that cannot stand for themselves by entities.
    pub perform_escaping: bool,
    /// Write a document declaration before anything else if none is given.
    pub write_document_declaration: bool,
    /// Write an element without content as one self-closing tag.
    pub normalize_empty_elements: bool,
    /// Write CDATA sections as character data.
    pub cdata_to_characters: bool,
    /// Remember the names of the open elements, so that an element can be
    /// closed without its name being given again.
    pub keep_element_names_stack: bool,
    /// Put a space at each end of a comment that has none there.
    pub autopad_comments: bool,
    /// Put a space before the `/>` of a self-closing tag.
    pub pad_self_closing: bool,
}

/// The options of the writer as values.
pub ghost struct ConfigView {
    pub line_separator: Seq<char>,
    pub indent_string: Seq<char>,
    pub perform_indent: bool,
    pub perform_escaping: bool,
    pub write_document_declaration: bool,
    pub normalize_empty_elements: bool,
    pub cdata_to_characters: bool,
    pub keep_element_names_stack: bool,
    pub autopad_comments: bool,
    pub pad_self_closing: bool,
}

impl View for EmitterConfig {
    type V = ConfigView;

    open spec fn view(&self) -> ConfigView {
        ConfigView {
            line_separator: self.line_separator@,
            indent_string: self.indent_string@,
            perform_indent: self.perform_indent,
            perform_escaping: self.perform_escaping,
            write_document_declaration: self.write_document_declaration,
            normalize_empty_elements: self.normalize_empty_elements,
            cdata_to_characters: self.cdata_to_characters,
            keep_element_names_stack: self.keep_element_names_stack,
            autopad_comments: self.autopad_comments,
            pad_self_closing: self.pad_self_closing,
        }
    }
}

impl EmitterConfig {
    /// The default options as values: lines end in `\n`, a level of
    /// indentation is two spaces, nothing is indented, text is escaped, a
    /// declaration is written, empty elements are self-closing with a space,
    /// names are remembered, comments are padded.
    pub open spec fn defaults() -> ConfigView {
        ConfigView {
            line_separator: "\n"@,
            indent_string: "  "@,
            perform_indent: false,
            perform_escaping: true,
            write_document_declaration: true,
            normalize_empty_elements: true,
            cdata_to_characters: false,
            keep_element_names_stack: true,
            autopad_comments: true,
            pad_self_closing: true,
        }
    }

    /// The default options.
    pub fn new() -> (c: EmitterConfig)
        ensures
            c@ == Self::defaults(),
    {
        EmitterConfig {
            line_separator: String::from_str("\n"),
            indent_string: String::from_str("  "),
            perform_indent: false,
            perform_escaping: true,
            write_document_declaration: true,
            normalize_empty_elements: true,
            cdata_to_characters: false,
            keep_element_names_stack: true,
            autopad_comments: true,
            pad_self_closing: true,
        }
    }

    /// What ends a line where the output is indented.
    pub fn line_separator(self, value: &str) -> (c: EmitterConfig)
        ensures
            c@ == (ConfigView { line_separator: value@, ..self@ }),
    {
        let mut c = self;
        c.line_separator = String::from_str(value);
        c
    }

    /// What one level of indentation is made of.
    pub fn indent_string(self, value: &str) -> (c: EmitterConfig)
        ensures
            c@ == (ConfigView { indent_string: value@, ..self@ }),
    {
        let mut c = self;
        c.indent_string = String::from_str(value);
        c
    }

    /// Whether each piece of markup goes on a line of its own.
    pub fn perform_indent(self, value: bool) -> (c: EmitterConfig)
        ensures
            c@ == (ConfigView { perform_indent: value, ..self@ }),
    {
        let mut c = self;
        c.perform_indent = value;
        c
    }

    /// Whether characters that cannot stand for themselves are replaced.
    pub fn perform_escaping(self, value: bool) -> (c: EmitterConfig)
        ensures
            c@ == (ConfigView { perform_escaping: value, ..self@ }),
    {
        let mut c = self;
        c.perform_escaping = value;
        c
    }

    /// Whether a document declaration is written if none is given.
    pub fn write_document_declaration(self, value: bool) -> (c: EmitterConfig)
        ensures
            c@ == (ConfigView { write_document_declaration: value, ..self@ }),
    {
        let mut c = self;
        c.write_document_declaration = value;
        c
    }

    /// Whether an element without content is written as one tag.
    pub fn normalize_empty_elements(self, value: bool) -> (c: EmitterConfig)
        ensures
            c@ == (ConfigView { normalize_empty_elements: value, ..self@ }),
    {
        let mut c = self;
        c.normalize_empty_elements = value;
        c
    }

    /// Whether CDATA sections are written as character data.
    pub fn cdata_to_characters(self, value: bool) -> (c: EmitterConfig)
        ensures
            c@ == (ConfigView { cdata_to_characters: value, ..self@ }),
    {
        let mut c = self;
        c.cdata_to_characters = value;
        c
    }

    /// Whether the names of the open elements are remembered.
    pub fn keep_element_names_stack(self, value: bool) -> (c: EmitterConfig)
        ensures
            c@ == (ConfigView { keep_element_names_stack: value, ..self@ }),
    {
        let mut c = self;
        c.keep_element_names_stack = value;
        c
    }

    /// Whether comments get a space at each end.
    pub fn autopad_comments(self, value: bool) -> (c: EmitterConfig)
        ensures
            c@ == (ConfigView { autopad_comments: value, ..self@ }),
    {
        let mut c = self;
        c.autopad_comments = value;
        c
    }

    /// Whether a space goes before the `/>` of a self-closing tag.
    pub fn pad_self_closing(self, value: bool) -> (c: EmitterConfig)
        ensures
            c@ == (ConfigView { pad_self_closing: value, ..self@ }),
    {
        let mut c = self;
        c.pad_self_closing = value;
        c
    }
}

} // verus!
