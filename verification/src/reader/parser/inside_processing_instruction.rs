//! The handler for processing instructions.

use vstd::prelude::*;
use vstd::string::*;
use crate::common::{is_name_char, is_name_start_char, is_whitespace_char};
use crate::reader::error::{Error, SyntaxError};
use crate::reader::events::XmlEvent;
use crate::reader::lexer::Token;
use crate::reader::parser::{
    boxed, is_valid_xml_char, is_xml_name, take_chars, take_string, DeclarationSubstate, Encountered,
    ProcessingInstructionSubstate, PullParser, State,
};
use crate::text::{chars_are, string_from_chars};

verus! {

impl PullParser {
    /// Handles a token within a processing instruction.
    ///
    /// An instruction named `xml` at the very start of the document is the
    /// declaration of the document; anywhere else that name, in any case, is
    /// an error.
    pub(crate) fn inside_processing_instruction(&mut self, t: Token, s: ProcessingInstructionSubstate) -> (r:
        Option<Result<XmlEvent, Error>>)
        requires
            old(self).ready(),
            old(self).st == State::InsideProcessingInstruction(s),
        ensures
            Self::stepped(*old(self), *final(self), t, r),
            Self::follows(*final(self), r, crate::reader::parser::model::inside_processing_instruction(old(self).model(), t, s)),
    {
        match s {
            ProcessingInstructionSubstate::PIInsideName => match t {
                Token::Character(c) => {
                    if (self.buf.len() == 0 && is_name_start_char(c)) || (self.buf.len() > 0 && is_name_char(c)) {
                        if self.buf.len() > self.config.max_name_length {
                            return Some(self.error(SyntaxError::ExceededConfiguredLimit));
                        }
                        self.buf.push(c);
                        return None;
                    }
                    let name = take_chars(&mut self.buf);
                    if !is_whitespace_char(c) {
                        return Some(self.error(SyntaxError::UnexpectedProcessingInstruction(boxed(&name), t)));
                    }
                    if chars_are(&name, "xml") && self.encountered == Encountered::Nothing {
                        self.st = State::InsideDeclaration(DeclarationSubstate::BeforeVersion);
                        None
                    } else if is_xml_name(&name) {
                        Some(self.error(SyntaxError::InvalidXmlProcessingInstruction(boxed(&name))))
                    } else if name.len() == 0 {
                        Some(self.error(SyntaxError::ProcessingInstructionWithoutName))
                    } else {
                        self.data.name = name;
                        let next_event = self.set_encountered(Encountered::Declaration);
                        self.st = State::InsideProcessingInstruction(ProcessingInstructionSubstate::PIInsideData);
                        next_event
                    }
                },
                Token::ProcessingInstructionEnd => {
                    let name = take_chars(&mut self.buf);
                    if name.len() == 0 {
                        Some(self.error(SyntaxError::ProcessingInstructionWithoutName))
                    } else if is_xml_name(&name) {
                        Some(self.error(SyntaxError::InvalidXmlProcessingInstruction(boxed(&name))))
                    } else {
                        self.st = State::OutsideTag;
                        let event = XmlEvent::ProcessingInstruction { name: string_from_chars(&name), data: None };
                        match self.set_encountered(Encountered::Declaration) {
                            Some(first) => {
                                self.next_event = Some(event);
                                Some(first)
                            },
                            None => Some(Ok(event)),
                        }
                    }
                },
                _ => {
                    let name = take_chars(&mut self.buf);
                    Some(self.error(SyntaxError::UnexpectedProcessingInstruction(boxed(&name), t)))
                },
            },
            ProcessingInstructionSubstate::PIInsideData => match t {
                Token::ProcessingInstructionEnd => {
                    let name = take_string(&mut self.data.name);
                    let data = take_string(&mut self.buf);
                    self.st = State::OutsideTag;
                    Some(Ok(XmlEvent::ProcessingInstruction { name, data: Some(data) }))
                },
                _ => {
                    if let Token::Character(c) = t {
                        if !is_valid_xml_char(c, self.is_version11()) {
                            return Some(self.error(SyntaxError::InvalidCharacterEntity(c as u32)));
                        }
                    }
                    if self.buf.len() > self.config.max_data_length {
                        return Some(self.error(SyntaxError::ExceededConfiguredLimit));
                    }
                    if t == Token::ClosingTagStart {
                        // Within an instruction the lexer gives this token for
                        // a slash alone.
                        self.buf.push('/');
                    } else {
                        t.push_to_chars(&mut self.buf);
                    }
                    None
                },
            },
        }
    }
}

} // verus!
