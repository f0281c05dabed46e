//! The handler for document type declarations.

use vstd::prelude::*;
use vstd::string::*;
use crate::common::{is_name_char, is_name_start_char, is_whitespace_char};
use crate::reader::error::{Error, SyntaxError};
use crate::reader::events::XmlEvent;
use crate::reader::lexer::Token;
use crate::reader::parser::{
    boxed, find_entity, is_valid_xml_char, numeric_reference, take_chars, take_string, DoctypeSubstate, PullParser,
    QuoteToken, State,
};
use crate::text::{chars_are, push_str_chars, string_from_chars};

verus! {

/// The quote that a token is, if it is one.
pub fn quote_of(t: Token) -> (r: Option<QuoteToken>)
    ensures
        r == (match t {
            Token::SingleQuote => Some(QuoteToken::SingleQuoteToken),
            Token::DoubleQuote => Some(QuoteToken::DoubleQuoteToken),
            _ => None,
        }),
{
    match t {
        Token::SingleQuote => Some(QuoteToken::SingleQuoteToken),
        Token::DoubleQuote => Some(QuoteToken::DoubleQuoteToken),
        _ => None,
    }
}

/// Defines an entity unless one of that name is defined already.
pub fn define_entity(entities: &mut Vec<(String, String)>, name: &Vec<char>, value: &Vec<char>)
    ensures
        crate::reader::parser::model::pairs(final(entities)@) == crate::reader::parser::model::defined(
            crate::reader::parser::model::pairs(old(entities)@),
            name@,
            value@,
        ),
{
    if find_entity(entities, name).is_none() {
        entities.push((string_from_chars(name), string_from_chars(value)));
        assert(crate::reader::parser::model::pairs(entities@) =~= crate::reader::parser::model::pairs(
            old(entities)@,
        ).push((name@, value@)));
    }
}

impl PullParser {
    /// Moves on within the document type declaration.
    fn doctype(&mut self, s: DoctypeSubstate) -> (r: Option<Result<XmlEvent, Error>>)
        requires
            old(self).st is InsideDoctype,
        ensures
            r is None,
            *final(self) == (PullParser { st: State::InsideDoctype(s), ..*old(self) }),
    {
        self.st = State::InsideDoctype(s);
        None
    }

    /// Ends the document type declaration and gives it as an event.
    fn emit_doctype(&mut self) -> (r: Option<Result<XmlEvent, Error>>)
        requires
            old(self).st is InsideDoctype,
        ensures
            r matches Some(Ok(e)) && e is Doctype,
            *final(self) == (PullParser { st: State::OutsideTag, data: final(self).data, ..*old(self) }),
            Self::follows(*final(self), r, crate::reader::parser::model::doctype_ended(old(self).model())),
    {
        let name = take_string(&mut self.data.doctype_name);
        let syntax = take_string(&mut self.data.doctype);
        let public_id = self.data.public_id.take();
        let system_id = self.data.system_id.take();
        self.st = State::OutsideTag;
        Some(Ok(XmlEvent::Doctype { name, syntax, public_id, system_id }))
    }

    /// Handles a token within a document type declaration.
    ///
    /// The declaration names the root element and may give a system
    /// identifier after `SYSTEM`, or a public and a system identifier after
    /// `PUBLIC`.  Of its internal subset the entity declarations are taken
    /// in; the other declarations are skipped.
    pub(crate) fn inside_doctype(&mut self, t: Token, s: DoctypeSubstate) -> (r: Option<Result<XmlEvent, Error>>)
        requires
            old(self).ready(),
            old(self).st == State::InsideDoctype(s),
        ensures
            Self::stepped(*old(self), *final(self), t, r),
            Self::follows(*final(self), r, crate::reader::parser::model::inside_doctype(old(self).model(), t, s)),
    {
        if self.data.doctype.len() > self.config.max_data_length {
            return Some(self.error(SyntaxError::ExceededConfiguredLimit));
        }
        t.push_text(&mut self.data.doctype);
        match s {
            DoctypeSubstate::BeforeName | DoctypeSubstate::Name | DoctypeSubstate::AfterName | DoctypeSubstate::Keyword
            | DoctypeSubstate::BeforePublicId | DoctypeSubstate::BeforeSystemId | DoctypeSubstate::PublicId
            | DoctypeSubstate::SystemId | DoctypeSubstate::AfterIds | DoctypeSubstate::AfterSubset => self.doctype_header(
                t,
                s,
            ),
            DoctypeSubstate::Outside | DoctypeSubstate::String | DoctypeSubstate::Comment
            | DoctypeSubstate::ProcessingInstruction | DoctypeSubstate::SkipDeclaration => self.doctype_subset(t, s),
            DoctypeSubstate::InsideName | DoctypeSubstate::BeforeEntityName | DoctypeSubstate::EntityName
            | DoctypeSubstate::PEReferenceDefinition | DoctypeSubstate::PEReferenceDefinitionStart
            | DoctypeSubstate::BeforeEntityValue => self.doctype_declaration(t, s),
            DoctypeSubstate::EntityValue | DoctypeSubstate::PEReferenceInDtd | DoctypeSubstate::PEReferenceInValue
            | DoctypeSubstate::NumericReferenceStart | DoctypeSubstate::NumericReference => self.doctype_value(t, s),
        }
    }

    /// Handles a token of the name of the root element and of the keyword that
    /// follows it.
    fn doctype_root(&mut self, t: Token, s: DoctypeSubstate) -> (r: Option<Result<XmlEvent, Error>>)
        requires
            old(self).ready(),
            old(self).st == State::InsideDoctype(s),
            (s == DoctypeSubstate::BeforeName || s == DoctypeSubstate::Name || s == DoctypeSubstate::AfterName || s == DoctypeSubstate::Keyword),
        ensures
            Self::stepped(*old(self), *final(self), t, r),
            Self::follows(*final(self), r, crate::reader::parser::model::doctype_header(old(self).model(), t, s)),
    {
        let whitespace = match t {
            Token::Character(c) => is_whitespace_char(c),
            _ => false,
        };
        let version11 = self.is_version11();
        match s {
            DoctypeSubstate::BeforeName => match t {
                Token::Character(c) => {
                    if whitespace {
                        None
                    } else if is_name_start_char(c) {
                        self.data.doctype_name.push(c);
                        self.doctype(DoctypeSubstate::Name)
                    } else {
                        Some(self.error(SyntaxError::UnexpectedToken(t)))
                    }
                },
                _ => Some(self.error(SyntaxError::UnexpectedToken(t))),
            },
            DoctypeSubstate::Name => match t {
                Token::Character(c) => {
                    if whitespace {
                        self.doctype(DoctypeSubstate::AfterName)
                    } else if c == '[' {
                        self.doctype(DoctypeSubstate::Outside)
                    } else if is_name_char(c) {
                        if self.data.doctype_name.len() > self.config.max_name_length {
                            return Some(self.error(SyntaxError::ExceededConfiguredLimit));
                        }
                        self.data.doctype_name.push(c);
                        None
                    } else {
                        Some(self.error(SyntaxError::UnexpectedToken(t)))
                    }
                },
                Token::TagEnd => self.emit_doctype(),
                _ => Some(self.error(SyntaxError::UnexpectedToken(t))),
            },
            DoctypeSubstate::AfterName => match t {
                Token::Character(c) => {
                    if whitespace {
                        None
                    } else if c == '[' {
                        self.doctype(DoctypeSubstate::Outside)
                    } else if c == 'S' || c == 'P' {
                        self.buf.clear();
                        self.buf.push(c);
                        self.doctype(DoctypeSubstate::Keyword)
                    } else {
                        Some(self.error(SyntaxError::UnexpectedToken(t)))
                    }
                },
                Token::TagEnd => self.emit_doctype(),
                _ => Some(self.error(SyntaxError::UnexpectedToken(t))),
            },
            DoctypeSubstate::Keyword => match t {
                Token::Character(c) => {
                    if 'A' <= c && c <= 'Z' {
                        if self.buf.len() > self.config.max_name_length {
                            return Some(self.error(SyntaxError::ExceededConfiguredLimit));
                        }
                        self.buf.push(c);
                        None
                    } else if whitespace {
                        let keyword = take_chars(&mut self.buf);
                        if chars_are(&keyword, "SYSTEM") {
                            self.doctype(DoctypeSubstate::BeforeSystemId)
                        } else if chars_are(&keyword, "PUBLIC") {
                            self.doctype(DoctypeSubstate::BeforePublicId)
                        } else {
                            Some(self.error(SyntaxError::UnknownMarkupDeclaration(boxed(&keyword))))
                        }
                    } else {
                        Some(self.error(SyntaxError::UnexpectedToken(t)))
                    }
                },
                _ => Some(self.error(SyntaxError::UnexpectedToken(t))),
            },
            _ => None,
        }
    }

    /// Handles a token of the identifiers of a document type declaration.
    fn doctype_ids(&mut self, t: Token, s: DoctypeSubstate) -> (r: Option<Result<XmlEvent, Error>>)
        requires
            old(self).ready(),
            old(self).st == State::InsideDoctype(s),
            !(s == DoctypeSubstate::BeforeName || s == DoctypeSubstate::Name || s == DoctypeSubstate::AfterName || s == DoctypeSubstate::Keyword),
        ensures
            Self::stepped(*old(self), *final(self), t, r),
            Self::follows(*final(self), r, crate::reader::parser::model::doctype_header(old(self).model(), t, s)),
    {
        let whitespace = match t {
            Token::Character(c) => is_whitespace_char(c),
            _ => false,
        };
        let version11 = self.is_version11();
        match s {
            DoctypeSubstate::BeforePublicId | DoctypeSubstate::BeforeSystemId => {
                if whitespace {
                    None
                } else if let Some(q) = quote_of(t) {
                    self.data.quote = Some(q);
                    self.buf.clear();
                    if s == DoctypeSubstate::BeforePublicId {
                        self.doctype(DoctypeSubstate::PublicId)
                    } else {
                        self.doctype(DoctypeSubstate::SystemId)
                    }
                } else if s == DoctypeSubstate::BeforeSystemId && t == Token::TagEnd {
                    self.emit_doctype()
                } else if s == DoctypeSubstate::BeforeSystemId && t == Token::Character('[') {
                    self.doctype(DoctypeSubstate::Outside)
                } else {
                    Some(self.error(SyntaxError::UnexpectedToken(t)))
                }
            },
            DoctypeSubstate::PublicId | DoctypeSubstate::SystemId => {
                if quote_of(t).is_some() && quote_of(t) == self.data.quote {
                    self.data.quote = None;
                    let id = take_string(&mut self.buf);
                    if s == DoctypeSubstate::PublicId {
                        self.data.public_id = Some(id);
                        self.doctype(DoctypeSubstate::BeforeSystemId)
                    } else {
                        self.data.system_id = Some(id);
                        self.doctype(DoctypeSubstate::AfterIds)
                    }
                } else {
                    if self.buf.len() > self.config.max_data_length {
                        return Some(self.error(SyntaxError::ExceededConfiguredLimit));
                    }
                    t.push_text(&mut self.buf);
                    None
                }
            },
            DoctypeSubstate::AfterIds | DoctypeSubstate::AfterSubset => {
                if whitespace {
                    None
                } else if t == Token::TagEnd {
                    self.emit_doctype()
                } else if s == DoctypeSubstate::AfterIds && t == Token::Character('[') {
                    self.doctype(DoctypeSubstate::Outside)
                } else {
                    Some(self.error(SyntaxError::UnexpectedToken(t)))
                }
            },
            _ => None,
        }
    }

    /// Handles a token of the head of the declaration: the name of the root
    /// element and the identifiers.
    fn doctype_header(&mut self, t: Token, s: DoctypeSubstate) -> (r: Option<Result<XmlEvent, Error>>)
        requires
            old(self).ready(),
            old(self).st == State::InsideDoctype(s),
        ensures
            Self::stepped(*old(self), *final(self), t, r),
            Self::follows(*final(self), r, crate::reader::parser::model::doctype_header(old(self).model(), t, s)),
    {
        if s == DoctypeSubstate::BeforeName || s == DoctypeSubstate::Name || s == DoctypeSubstate::AfterName || s == DoctypeSubstate::Keyword {
            self.doctype_root(t, s)
        } else {
            self.doctype_ids(t, s)
        }
    }

    /// Handles a token of the internal subset between declarations, and of
    /// what is skipped there.
    fn doctype_subset(&mut self, t: Token, s: DoctypeSubstate) -> (r: Option<Result<XmlEvent, Error>>)
        requires
            old(self).ready(),
            old(self).st == State::InsideDoctype(s),
        ensures
            Self::stepped(*old(self), *final(self), t, r),
            Self::follows(*final(self), r, crate::reader::parser::model::doctype_subset(old(self).model(), t, s)),
    {
        let whitespace = match t {
            Token::Character(c) => is_whitespace_char(c),
            _ => false,
        };
        let version11 = self.is_version11();
        match s {
            DoctypeSubstate::Outside => match t {
                Token::Character(']') => self.doctype(DoctypeSubstate::AfterSubset),
                Token::MarkupDeclarationStart => {
                    self.buf.clear();
                    self.doctype(DoctypeSubstate::InsideName)
                },
                Token::Character('%') => {
                    self.data.ref_data.clear();
                    self.data.ref_data.push('%');
                    self.doctype(DoctypeSubstate::PEReferenceInDtd)
                },
                Token::CommentStart => self.doctype(DoctypeSubstate::Comment),
                Token::ProcessingInstructionStart => self.doctype(DoctypeSubstate::ProcessingInstruction),
                Token::SingleQuote | Token::DoubleQuote => {
                    self.data.quote = quote_of(t);
                    self.doctype(DoctypeSubstate::String)
                },
                Token::Character(_) => {
                    if whitespace {
                        None
                    } else {
                        Some(self.error(SyntaxError::UnexpectedToken(t)))
                    }
                },
                _ => Some(self.error(SyntaxError::UnexpectedToken(t))),
            },
            DoctypeSubstate::String => {
                if quote_of(t).is_some() && quote_of(t) == self.data.quote {
                    self.data.quote = None;
                    self.doctype(DoctypeSubstate::Outside)
                } else {
                    None
                }
            },
            DoctypeSubstate::Comment => match t {
                Token::CommentEnd => self.doctype(DoctypeSubstate::Outside),
                _ => None,
            },
            DoctypeSubstate::ProcessingInstruction => match t {
                Token::ProcessingInstructionEnd => self.doctype(DoctypeSubstate::Outside),
                _ => None,
            },
            DoctypeSubstate::SkipDeclaration => match t {
                Token::TagEnd => self.doctype(DoctypeSubstate::Outside),
                _ => None,
            },
            _ => None,
        }
    }

    /// Handles a token of a markup declaration up to the value of an entity.
    fn doctype_declaration(&mut self, t: Token, s: DoctypeSubstate) -> (r: Option<Result<XmlEvent, Error>>)
        requires
            old(self).ready(),
            old(self).st == State::InsideDoctype(s),
        ensures
            Self::stepped(*old(self), *final(self), t, r),
            Self::follows(*final(self), r, crate::reader::parser::model::doctype_declaration(old(self).model(), t, s)),
    {
        let whitespace = match t {
            Token::Character(c) => is_whitespace_char(c),
            _ => false,
        };
        let version11 = self.is_version11();
        match s {
            DoctypeSubstate::InsideName => match t {
                Token::Character(c) => {
                    if 'A' <= c && c <= 'Z' {
                        if self.buf.len() > self.config.max_name_length {
                            return Some(self.error(SyntaxError::ExceededConfiguredLimit));
                        }
                        self.buf.push(c);
                        None
                    } else if whitespace {
                        let keyword = take_chars(&mut self.buf);
                        if chars_are(&keyword, "ENTITY") {
                            self.doctype(DoctypeSubstate::BeforeEntityName)
                        } else if chars_are(&keyword, "NOTATION") || chars_are(&keyword, "ELEMENT") || chars_are(
                            &keyword,
                            "ATTLIST",
                        ) {
                            self.doctype(DoctypeSubstate::SkipDeclaration)
                        } else {
                            Some(self.error(SyntaxError::UnknownMarkupDeclaration(boxed(&keyword))))
                        }
                    } else {
                        Some(self.error(SyntaxError::UnexpectedToken(t)))
                    }
                },
                _ => Some(self.error(SyntaxError::UnexpectedToken(t))),
            },
            DoctypeSubstate::BeforeEntityName => {
                self.data.name.clear();
                match t {
                    Token::Character(c) => {
                        if whitespace {
                            None
                        } else if c == '%' {
                            self.data.name.push('%');
                            self.doctype(DoctypeSubstate::PEReferenceDefinitionStart)
                        } else if is_name_start_char(c) {
                            self.data.name.push(c);
                            self.doctype(DoctypeSubstate::EntityName)
                        } else {
                            Some(self.error(SyntaxError::UnexpectedTokenInEntity(t)))
                        }
                    },
                    _ => Some(self.error(SyntaxError::UnexpectedTokenInEntity(t))),
                }
            },
            DoctypeSubstate::EntityName | DoctypeSubstate::PEReferenceDefinition => match t {
                Token::Character(c) => {
                    if whitespace {
                        self.doctype(DoctypeSubstate::BeforeEntityValue)
                    } else if is_name_char(c) {
                        if self.data.name.len() > self.config.max_name_length {
                            return Some(self.error(SyntaxError::ExceededConfiguredLimit));
                        }
                        self.data.name.push(c);
                        None
                    } else {
                        Some(self.error(SyntaxError::UnexpectedTokenInEntity(t)))
                    }
                },
                _ => Some(self.error(SyntaxError::UnexpectedTokenInEntity(t))),
            },
            DoctypeSubstate::PEReferenceDefinitionStart => match t {
                Token::Character(c) => {
                    if whitespace {
                        None
                    } else if is_name_start_char(c) {
                        self.data.name.push(c);
                        self.doctype(DoctypeSubstate::PEReferenceDefinition)
                    } else {
                        Some(self.error(SyntaxError::UnexpectedTokenInEntity(t)))
                    }
                },
                _ => Some(self.error(SyntaxError::UnexpectedTokenInEntity(t))),
            },
            DoctypeSubstate::BeforeEntityValue => {
                self.buf.clear();
                match t {
                    Token::Character(c) => {
                        if whitespace {
                            None
                        } else if c == 'S' || c == 'P' {
                            // An entity that is kept outside the document: its
                            // name is known, its text is not read.
                            let name = take_chars(&mut self.data.name);
                            let nothing: Vec<char> = Vec::new();
                            define_entity(&mut self.entities, &name, &nothing);
                            self.doctype(DoctypeSubstate::SkipDeclaration)
                        } else {
                            Some(self.error(SyntaxError::UnexpectedTokenInEntity(t)))
                        }
                    },
                    Token::SingleQuote | Token::DoubleQuote => {
                        self.data.quote = quote_of(t);
                        self.doctype(DoctypeSubstate::EntityValue)
                    },
                    _ => Some(self.error(SyntaxError::UnexpectedTokenInEntity(t))),
                }
            },
            _ => None,
        }
    }

    /// Handles a token of the value of an entity.
    fn entity_value(&mut self, t: Token, s: DoctypeSubstate) -> (r: Option<Result<XmlEvent, Error>>)
        requires
            old(self).ready(),
            old(self).st == State::InsideDoctype(s),
            (s == DoctypeSubstate::EntityValue),
        ensures
            Self::stepped(*old(self), *final(self), t, r),
            Self::follows(*final(self), r, crate::reader::parser::model::doctype_value(old(self).model(), t, s)),
    {
        let whitespace = match t {
            Token::Character(c) => is_whitespace_char(c),
            _ => false,
        };
        let version11 = self.is_version11();
        match s {
            DoctypeSubstate::EntityValue => match t {
                Token::SingleQuote | Token::DoubleQuote => {
                    if quote_of(t) == self.data.quote {
                        self.data.quote = None;
                        let name = take_chars(&mut self.data.name);
                        let value = take_chars(&mut self.buf);
                        define_entity(&mut self.entities, &name, &value);
                        self.doctype(DoctypeSubstate::SkipDeclaration)
                    } else {
                        t.push_to_chars(&mut self.buf);
                        None
                    }
                },
                Token::ReferenceStart | Token::Character('&') => {
                    self.data.ref_data.clear();
                    self.doctype(DoctypeSubstate::NumericReferenceStart)
                },
                Token::Character('%') => {
                    self.data.ref_data.clear();
                    self.data.ref_data.push('%');
                    self.doctype(DoctypeSubstate::PEReferenceInValue)
                },
                Token::Character(c) => {
                    if !is_valid_xml_char(c, version11) {
                        Some(self.error(SyntaxError::InvalidCharacterEntity(c as u32)))
                    } else if self.buf.len() > self.config.max_data_length {
                        Some(self.error(SyntaxError::ExceededConfiguredLimit))
                    } else {
                        self.buf.push(c);
                        None
                    }
                },
                _ => Some(self.error(SyntaxError::UnexpectedTokenInEntity(t))),
            },
            _ => None,
        }
    }

    /// Handles a token of a reference within a document type declaration.
    fn entity_reference(&mut self, t: Token, s: DoctypeSubstate) -> (r: Option<Result<XmlEvent, Error>>)
        requires
            old(self).ready(),
            old(self).st == State::InsideDoctype(s),
            !(s == DoctypeSubstate::EntityValue),
        ensures
            Self::stepped(*old(self), *final(self), t, r),
            Self::follows(*final(self), r, crate::reader::parser::model::doctype_value(old(self).model(), t, s)),
    {
        let whitespace = match t {
            Token::Character(c) => is_whitespace_char(c),
            _ => false,
        };
        let version11 = self.is_version11();
        match s {
            DoctypeSubstate::PEReferenceInDtd => match t {
                Token::Character(c) => {
                    if is_name_char(c) {
                        self.data.ref_data.push(c);
                        None
                    } else {
                        Some(self.error(SyntaxError::UnexpectedTokenInEntity(t)))
                    }
                },
                Token::ReferenceEnd => {
                    let name = take_chars(&mut self.data.ref_data);
                    match find_entity(&self.entities, &name) {
                        Some(k) => {
                            proof {
                                crate::reader::lexer::reparse_uses_budget(self.lexer@, self.entities@[k as int].1@);
                            }
                            if let Err(e) = self.lexer.reparse(self.entities[k].1.as_str()) {
                                return Some(Err(e));
                            }
                            self.doctype(DoctypeSubstate::Outside)
                        },
                        None => Some(self.error(SyntaxError::UndefinedEntity(boxed(&name)))),
                    }
                },
                _ => Some(self.error(SyntaxError::UnexpectedTokenInEntity(t))),
            },
            DoctypeSubstate::PEReferenceInValue => match t {
                Token::ReferenceEnd | Token::Character(';') => {
                    let name = take_chars(&mut self.data.ref_data);
                    match find_entity(&self.entities, &name) {
                        Some(k) => {
                            push_str_chars(&mut self.buf, self.entities[k].1.as_str());
                            self.doctype(DoctypeSubstate::EntityValue)
                        },
                        None => Some(self.error(SyntaxError::UndefinedEntity(boxed(&name)))),
                    }
                },
                Token::Character(c) => {
                    if is_name_char(c) {
                        self.data.ref_data.push(c);
                        None
                    } else {
                        Some(self.error(SyntaxError::UnexpectedTokenInEntity(t)))
                    }
                },
                _ => Some(self.error(SyntaxError::UnexpectedTokenInEntity(t))),
            },
            DoctypeSubstate::NumericReferenceStart => match t {
                Token::Character('#') => {
                    self.data.ref_data.push('#');
                    self.doctype(DoctypeSubstate::NumericReference)
                },
                Token::Character(c) => {
                    if !is_valid_xml_char(c, version11) {
                        Some(self.error(SyntaxError::InvalidCharacterEntity(c as u32)))
                    } else {
                        // A reference to an entity stays as it is until the
                        // entity that holds it is used.
                        self.buf.push('&');
                        self.buf.push(c);
                        self.doctype(DoctypeSubstate::EntityValue)
                    }
                },
                _ => Some(self.error(SyntaxError::UnexpectedTokenInEntity(t))),
            },
            DoctypeSubstate::NumericReference => match t {
                Token::ReferenceEnd | Token::Character(';') => {
                    let body = take_chars(&mut self.data.ref_data);
                    if body.len() == 0 {
                        return Some(self.error(SyntaxError::EmptyEntity));
                    }
                    match numeric_reference(&body, version11, self.lexer.position()) {
                        Ok(c) => {
                            self.buf.push(c);
                            self.doctype(DoctypeSubstate::EntityValue)
                        },
                        Err(e) => Some(Err(e)),
                    }
                },
                Token::Character(c) => {
                    if !is_valid_xml_char(c, version11) {
                        Some(self.error(SyntaxError::InvalidCharacterEntity(c as u32)))
                    } else {
                        self.data.ref_data.push(c);
                        None
                    }
                },
                _ => Some(self.error(SyntaxError::UnexpectedTokenInEntity(t))),
            },
            _ => None,
        }
    }

    /// Handles a token of the value of an entity, or of a reference to a
    /// parameter entity.
    fn doctype_value(&mut self, t: Token, s: DoctypeSubstate) -> (r: Option<Result<XmlEvent, Error>>)
        requires
            old(self).ready(),
            old(self).st == State::InsideDoctype(s),
        ensures
            Self::stepped(*old(self), *final(self), t, r),
            Self::follows(*final(self), r, crate::reader::parser::model::doctype_value(old(self).model(), t, s)),
    {
        if s == DoctypeSubstate::EntityValue {
            self.entity_value(t, s)
        } else {
            self.entity_reference(t, s)
        }
    }

}

} // verus!
