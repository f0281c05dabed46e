//! The handler for end tags.

use vstd::prelude::*;
use vstd::string::*;
use crate::common::is_whitespace_char;
use crate::namespace::{NS_XMLNS_PREFIX, NS_XML_PREFIX};
use crate::reader::error::{Error, SyntaxError};
use crate::reader::events::XmlEvent;
use crate::reader::lexer::Token;
use crate::reader::parser::{read_name, ClosingTagSubstate, NameRead, PullParser, QualifiedNameTarget, State};
use crate::text::str_eq;

verus! {

impl PullParser {
    /// Handles a token within an end tag.
    pub(crate) fn inside_closing_tag_name(&mut self, t: Token, s: ClosingTagSubstate) -> (r: Option<
        Result<XmlEvent, Error>,
    >)
        requires
            old(self).ready(),
            old(self).st == State::InsideClosingTag(s),
        ensures
            Self::stepped(*old(self), *final(self), t, r),
            Self::follows(*final(self), r, crate::reader::parser::model::inside_closing_tag_name(old(self).model(), t, s)),
    {
        match s {
            ClosingTagSubstate::CTInsideName => {
                let pos = self.lexer.position();
                match read_name(
                    &mut self.buf,
                    &mut self.read_prefix_separator,
                    t,
                    QualifiedNameTarget::ClosingTagNameTarget,
                    self.config.max_name_length,
                    pos,
                ) {
                    NameRead::More => None,
                    NameRead::Failed(e) => Some(Err(e)),
                    NameRead::Name(name) => {
                        if let Some(prefix) = &name.prefix {
                            if str_eq(prefix.as_str(), NS_XML_PREFIX) || str_eq(prefix.as_str(), NS_XMLNS_PREFIX) {
                                return Some(self.error(SyntaxError::InvalidNamePrefix(Box::new(prefix.clone()))));
                            }
                        }
                        self.data.element_name = name;
                        match t {
                            Token::TagEnd => self.emit_end_element(t),
                            Token::Character(c) => {
                                if is_whitespace_char(c) {
                                    self.st = State::InsideClosingTag(ClosingTagSubstate::CTAfterName);
                                    None
                                } else {
                                    Some(self.error(SyntaxError::UnexpectedTokenInClosingTag(t)))
                                }
                            },
                            _ => Some(self.error(SyntaxError::UnexpectedTokenInClosingTag(t))),
                        }
                    },
                }
            },
            ClosingTagSubstate::CTAfterName => match t {
                Token::TagEnd => self.emit_end_element(t),
                Token::Character(c) => {
                    if is_whitespace_char(c) {
                        None
                    } else {
                        Some(self.error(SyntaxError::UnexpectedTokenInClosingTag(t)))
                    }
                },
                _ => Some(self.error(SyntaxError::UnexpectedTokenInClosingTag(t))),
            },
        }
    }
}

} // verus!
