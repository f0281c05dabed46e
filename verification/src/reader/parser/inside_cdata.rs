//! The handler for CDATA sections.

use vstd::prelude::*;
use vstd::string::*;
use crate::common::is_whitespace_char;
use crate::reader::error::{Error, SyntaxError};
use crate::reader::events::XmlEvent;
use crate::reader::lexer::Token;
use crate::reader::parser::{is_valid_xml_char, take_string, PullParser, State};

verus! {

impl PullParser {
    /// Handles a token within a CDATA section.  The end of the section gives
    /// its contents as an event, unless they are reported as character data,
    /// in which case they stay gathered as text.
    pub(crate) fn inside_cdata(&mut self, t: Token) -> (r: Option<Result<XmlEvent, Error>>)
        requires
            old(self).ready(),
            old(self).st == State::InsideCData,
        ensures
            Self::stepped(*old(self), *final(self), t, r),
            Self::follows(*final(self), r, crate::reader::parser::model::inside_cdata(old(self).model(), t)),
    {
        match t {
            Token::CDataEnd => {
                self.st = State::OutsideTag;
                if self.config.cdata_to_characters {
                    if self.buf.len() == 0 {
                        crate::reader::parser::advance_positions(&mut self.pos, self.lexer.position());
                    }
                    None
                } else {
                    let data = take_string(&mut self.buf);
                    Some(Ok(XmlEvent::CData(data)))
                }
            },
            Token::Character(c) => {
                if !is_valid_xml_char(c, self.is_version11()) {
                    return Some(self.error(SyntaxError::InvalidCharacterEntity(c as u32)));
                }
                if !is_whitespace_char(c) {
                    self.inside_whitespace = false;
                }
                if self.buf.len() > self.config.max_data_length {
                    return Some(self.error(SyntaxError::ExceededConfiguredLimit));
                }
                self.buf.push(c);
                None
            },
            _ => Some(self.error(SyntaxError::UnexpectedToken(t))),
        }
    }
}

} // verus!
