//! The handler for references to characters and entities.

use vstd::prelude::*;
use vstd::string::*;
use crate::common::{is_name_char, is_name_start_char, is_whitespace_str};
use crate::reader::error::{Error, SyntaxError};
use crate::reader::events::XmlEvent;
use crate::reader::lexer::Token;
use crate::reader::parser::model::predefined;
use crate::reader::parser::{boxed, find_entity, numeric_reference, take_chars, PullParser, State};
use crate::text::{chars_are, push_str_chars};

verus! {

/// The character that a predefined entity stands for.
pub fn predefined_entity(name: &Vec<char>) -> (r: Option<char>)
    ensures
        r == predefined(name@),
{
    if chars_are(name, "lt") {
        Some('<')
    } else if chars_are(name, "gt") {
        Some('>')
    } else if chars_are(name, "amp") {
        Some('&')
    } else if chars_are(name, "apos") {
        Some('\'')
    } else if chars_are(name, "quot") {
        Some('"')
    } else {
        None
    }
}

impl PullParser {
    /// Handles a token within a reference.
    ///
    /// At the end of the reference its text takes its place: the character of
    /// a predefined entity or of a numeric reference, or the replacement
    /// text of an entity that has been defined.  Between tags the
    /// replacement text of an entity of the document is read again as part of
    /// the document; within an attribute value it is taken as text.
    pub(crate) fn inside_reference(&mut self, t: Token) -> (r: Option<Result<XmlEvent, Error>>)
        requires
            old(self).ready(),
            old(self).st == State::InsideReference,
        ensures
            Self::stepped(*old(self), *final(self), t, r),
            Self::follows(*final(self), r, crate::reader::parser::model::inside_reference(old(self).model(), t)),
    {
        match t {
            Token::Character(c) => {
                let first = self.data.ref_data.len() == 0;
                if (!first && is_name_char(c)) || (first && (is_name_start_char(c) || c == '#')) {
                    self.data.ref_data.push(c);
                    None
                } else {
                    Some(self.error(SyntaxError::UnexpectedTokenInEntity(t)))
                }
            },
            Token::ReferenceEnd => {
                let name = take_chars(&mut self.data.ref_data);
                if name.len() == 0 {
                    return Some(self.error(SyntaxError::EmptyEntity));
                }
                let known: Option<char> = if name[0] == '#' {
                    match numeric_reference(&name, self.is_version11(), self.lexer.position()) {
                        Ok(c) => Some(c),
                        Err(e) => {
                            return Some(Err(e));
                        },
                    }
                } else {
                    predefined_entity(&name)
                };
                if let Some(c) = known {
                    self.buf.push(c);
                } else if let Some(k) = find_entity(&self.config.extra_entities, &name) {
                    push_str_chars(&mut self.buf, self.config.extra_entities[k].1.as_str());
                } else if let Some(k) = find_entity(&self.entities, &name) {
                    if self.state_after_reference == State::OutsideTag {
                        let ghost before = self.lexer@;
                        proof {
                            crate::reader::lexer::reparse_uses_budget(before, self.entities@[k as int].1@);
                        }
                        if let Err(e) = self.lexer.reparse(self.entities[k].1.as_str()) {
                            return Some(Err(e));
                        }
                    } else {
                        push_str_chars(&mut self.buf, self.entities[k].1.as_str());
                    }
                } else {
                    return Some(self.error(SyntaxError::UndefinedEntity(boxed(&name))));
                }
                let back = self.state_after_reference;
                if back == State::OutsideTag && !is_whitespace_str(&self.buf) {
                    self.inside_whitespace = false;
                }
                self.st = back;
                None
            },
            _ => Some(self.error(SyntaxError::UnexpectedTokenInEntity(t))),
        }
    }
}

} // verus!
