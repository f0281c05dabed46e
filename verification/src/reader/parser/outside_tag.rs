//! The handlers for the start of the document and for what stands between
//! pieces of markup.

use vstd::prelude::*;
use vstd::string::*;
use crate::common::is_whitespace_char;
use crate::reader::config::ParserConfig;
use crate::reader::error::{Error, SyntaxError};
use crate::reader::events::XmlEvent;
use crate::reader::lexer::Token;
use crate::reader::parser::{
    is_valid_xml_char_not_restricted, take_string, trim, ClosingTagSubstate, DoctypeSubstate, Encountered,
    OpeningTagSubstate, ProcessingInstructionSubstate, PullParser, State,
};
use crate::reader::parser::model::flushed;
use crate::text::push_str_chars;

verus! {

/// The event for the text that has been gathered in `buf`, if there is any
/// and it is not dropped.  `buf` is empty afterwards.
///
/// Text that is all white space is dropped where text is trimmed, is white
/// space unless white space counts as characters, and is characters
/// otherwise; other text is characters, trimmed where text is trimmed.
pub fn text_event(buf: &mut Vec<char>, inside_whitespace: bool, config: &ParserConfig) -> (r: Option<XmlEvent>)
    ensures
        final(buf)@ == Seq::<char>::empty(),
        match flushed(old(buf)@, inside_whitespace, *config) {
            Some(e) => r matches Some(x) && x@ == e,
            None => r is None,
        },
{
    if buf.len() == 0 {
        return None;
    }
    if inside_whitespace && config.trim_whitespace {
        buf.clear();
        None
    } else if inside_whitespace && !config.whitespace_to_characters {
        Some(XmlEvent::Whitespace(take_string(buf)))
    } else if config.trim_whitespace {
        let s = trim(buf);
        buf.clear();
        Some(XmlEvent::Characters(s))
    } else {
        Some(XmlEvent::Characters(take_string(buf)))
    }
}

impl PullParser {
    /// Handles the first token of the document.
    pub(crate) fn document_start(&mut self, t: Token) -> (r: Option<Result<XmlEvent, Error>>)
        requires
            old(self).ready(),
            old(self).st == State::DocumentStart,
        ensures
            Self::stepped(*old(self), *final(self), t, r),
            Self::follows(*final(self), r, crate::reader::parser::model::document_start(old(self).model(), t)),
    {
        match t {
            Token::Character(c) => {
                let next_event = self.set_encountered(Encountered::AnyChars);
                if !is_whitespace_char(c) {
                    return Some(self.error(SyntaxError::UnexpectedTokenOutsideRoot(t)));
                }
                self.inside_whitespace = true;
                if (self.config.trim_whitespace && self.buf.len() == 0) || (self.est.len() == 0
                    && self.config.ignore_root_level_whitespace) {
                    self.st = State::OutsideTag;
                    return next_event;
                }
                self.pos.push(self.lexer.position());
                self.buf.push(c);
                self.st = State::OutsideTag;
                next_event
            },
            Token::CommentStart => {
                let next_event = self.set_encountered(Encountered::Comment);
                self.st = State::InsideComment;
                next_event
            },
            Token::OpeningTagStart => {
                let next_event = self.set_encountered(Encountered::Element);
                self.nst.push_empty();
                self.st = State::InsideOpeningTag(OpeningTagSubstate::InsideName);
                assert(self.nst@.drop_last() == old(self).nst@);
                next_event
            },
            Token::DoctypeStart => {
                let next_event = self.set_encountered(Encountered::Doctype);
                self.start_doctype();
                next_event
            },
            Token::ProcessingInstructionStart => {
                self.pos.push(self.lexer.position());
                self.st = State::InsideProcessingInstruction(ProcessingInstructionSubstate::PIInsideName);
                None
            },
            _ => Some(self.error(SyntaxError::UnexpectedToken(t))),
        }
    }

    /// Gets ready to read a document type declaration.
    pub(crate) fn start_doctype(&mut self)
        requires
            old(self).ready(),
            !old(self).in_opening_tag(),
            !(old(self).st is InsideClosingTag),
        ensures
            *final(self) == (PullParser {
                data: final(self).data,
                buf: final(self).buf,
                pos: final(self).pos,
                st: State::InsideDoctype(DoctypeSubstate::BeforeName),
                ..*old(self)
            }),
            final(self).pos@.len() > 0,
            final(self).model() == crate::reader::parser::model::doctype_started(old(self).model()),
    {
        self.data.doctype.clear();
        push_str_chars(&mut self.data.doctype, "<!DOCTYPE");
        assert(self.data.doctype@ =~= "<!DOCTYPE"@);
        self.data.doctype_name.clear();
        self.data.public_id = None;
        self.data.system_id = None;
        self.buf.clear();
        self.pos.push(self.lexer.position());
        self.st = State::InsideDoctype(DoctypeSubstate::BeforeName);
    }

    /// Adds a token to the text that is being gathered.
    fn gather(&mut self, t: Token) -> (r: Option<Result<XmlEvent, Error>>)
        ensures
            *final(self) == (PullParser { buf: final(self).buf, pos: final(self).pos, ..*old(self) }),
            final(self).pos@.len() >= old(self).pos@.len(),
            match r {
                None => true,
                Some(e) => e matches Err(x) && !(x.kind is UnexpectedEof),
            },
            Self::follows(*final(self), r, crate::reader::parser::model::gathered(old(self).model(), t)),
    {
        if self.buf.len() == 0 {
            self.pos.push(self.lexer.position());
        } else if self.buf.len() > self.config.max_data_length {
            return Some(self.error(SyntaxError::ExceededConfiguredLimit));
        }
        t.push_to_chars(&mut self.buf);
        None
    }

    /// Whether a token between pieces of markup is text.
    fn is_text(&self, t: Token) -> (r: bool)
        ensures
            r == crate::reader::parser::model::is_text(self.model(), t),
    {
        let depth = self.est.len();
        match t {
            Token::Character(_) | Token::CommentEnd | Token::TagEnd | Token::EqualsSign | Token::DoubleQuote
            | Token::SingleQuote | Token::ProcessingInstructionEnd | Token::EmptyTagEnd => true,
            Token::ReferenceStart | Token::ReferenceEnd => depth > 0,
            Token::CommentStart => self.config.coalesce_characters && self.config.ignore_comments,
            Token::CDataStart => depth > 0 && self.config.coalesce_characters && self.config.cdata_to_characters,
            _ => false,
        }
    }

    /// Handles a token that is text between pieces of markup.
    fn outside_text(&mut self, t: Token) -> (r: Option<Result<XmlEvent, Error>>)
        requires
            old(self).ready(),
            old(self).st == State::OutsideTag,
            crate::reader::parser::model::is_text(old(self).model(), t),
        ensures
            Self::stepped(*old(self), *final(self), t, r),
            Self::follows(*final(self), r, crate::reader::parser::model::outside_text(old(self).model(), t)),
    {
        let depth = self.est.len();
        match t {
            Token::Character(c) => {
                if is_whitespace_char(c) {
                    if (self.config.trim_whitespace && self.buf.len() == 0) || (depth == 0
                        && self.config.ignore_root_level_whitespace) {
                        return None;
                    }
                } else {
                    if depth == 0 {
                        return Some(self.error(SyntaxError::UnexpectedTokenOutsideRoot(t)));
                    }
                }
                if !is_valid_xml_char_not_restricted(c, self.is_version11()) {
                    return Some(self.error(SyntaxError::InvalidCharacterEntity(c as u32)));
                }
                if !is_whitespace_char(c) {
                    self.inside_whitespace = false;
                }
                self.gather(t)
            },
            Token::ReferenceStart => {
                self.state_after_reference = State::OutsideTag;
                self.st = State::InsideReference;
                None
            },
            Token::ReferenceEnd => {
                self.inside_whitespace = false;
                self.gather(t)
            },
            Token::CommentStart => {
                let next_event = self.set_encountered(Encountered::Comment);
                self.st = State::InsideComment;
                next_event
            },
            Token::CDataStart => {
                if self.buf.len() == 0 {
                    self.pos.push(self.lexer.position());
                }
                self.st = State::InsideCData;
                None
            },
            _ => {
                if depth == 0 {
                    return Some(self.error(SyntaxError::UnexpectedTokenOutsideRoot(t)));
                }
                self.inside_whitespace = false;
                self.gather(t)
            },
        }
    }

    /// Handles a token that is markup: the text that has been gathered is
    /// reported, and a piece of markup starts.
    fn outside_markup(&mut self, t: Token) -> (r: Option<Result<XmlEvent, Error>>)
        requires
            old(self).ready(),
            old(self).st == State::OutsideTag,
            !crate::reader::parser::model::is_text(old(self).model(), t),
        ensures
            Self::stepped(*old(self), *final(self), t, r),
            Self::follows(*final(self), r, crate::reader::parser::model::outside_tag(old(self).model(), t)),
    {
        let depth = self.est.len();
        let mut next_event: Option<Result<XmlEvent, Error>> = match text_event(
            &mut self.buf,
            self.inside_whitespace,
            &self.config,
        ) {
            Some(e) => Some(Ok(e)),
            None => None,
        };
        self.inside_whitespace = true;
        if !(t == Token::CommentStart && self.config.ignore_comments) {
            self.pos.push(self.lexer.position());
        }
        match t {
            Token::OpeningTagStart => {
                if depth > 0 || self.encountered.order() < Encountered::Element.order()
                    || self.config.allow_multiple_root_elements {
                    if let Some(e) = self.set_encountered(Encountered::Element) {
                        next_event = Some(e);
                    }
                    self.nst.push_empty();
                    self.st = State::InsideOpeningTag(OpeningTagSubstate::InsideName);
                    assert(self.nst@.drop_last() == old(self).nst@);
                    return next_event;
                }
            },
            Token::ClosingTagStart => {
                if depth > 0 {
                    self.st = State::InsideClosingTag(ClosingTagSubstate::CTInsideName);
                    return next_event;
                }
            },
            Token::CommentStart => {
                if let Some(e) = self.set_encountered(Encountered::Comment) {
                    next_event = Some(e);
                }
                self.st = State::InsideComment;
                return next_event;
            },
            Token::DoctypeStart => {
                if self.encountered.order() < Encountered::Doctype.order() {
                    if let Some(e) = self.set_encountered(Encountered::Doctype) {
                        next_event = Some(e);
                    }
                    self.start_doctype();
                    return next_event;
                }
            },
            Token::ProcessingInstructionStart => {
                self.pos.push(self.lexer.position());
                self.st = State::InsideProcessingInstruction(ProcessingInstructionSubstate::PIInsideName);
                return next_event;
            },
            Token::CDataStart => {
                if depth > 0 {
                    self.st = State::InsideCData;
                    return next_event;
                }
            },
            _ => {},
        }
        Some(self.error(SyntaxError::UnexpectedToken(t)))
    }

    /// Handles a token between pieces of markup: text is gathered; markup
    /// ends the text, which is reported, and starts a piece of markup.
    pub(crate) fn outside_tag(&mut self, t: Token) -> (r: Option<Result<XmlEvent, Error>>)
        requires
            old(self).ready(),
            old(self).st == State::OutsideTag,
        ensures
            Self::stepped(*old(self), *final(self), t, r),
            Self::follows(*final(self), r, crate::reader::parser::model::outside_tag(old(self).model(), t)),
    {
        if self.is_text(t) {
            self.outside_text(t)
        } else {
            self.outside_markup(t)
        }
    }
}

} // verus!
