//! The handler for the declaration at the start of a document.

use vstd::prelude::*;
use vstd::string::*;
use crate::common::{is_whitespace_char, XmlVersion};
use crate::reader::error::{Error, SyntaxError};
use crate::reader::events::XmlEvent;
use crate::reader::lexer::Token;
use crate::reader::parser::{
    boxed, read_name, read_value, DeclarationSubstate, Encountered, NameRead, PullParser, QualifiedNameTarget,
    State, ValueRead,
};
use crate::text::{chars_are, string_from_chars};
use crate::reader::parser::model::settled;
use crate::util::Encoding;

verus! {

/// The encoding in which a document is read from its declaration on.
pub fn settle_encoding(current: Encoding, declared: Encoding) -> (r: Option<Encoding>)
    ensures
        r == settled(current, declared),
{
    if current == declared {
        Some(current)
    } else if (current == Encoding::Unknown || current == Encoding::Default) && declared != Encoding::Utf16 {
        Some(declared)
    } else if (current == Encoding::Utf16Be || current == Encoding::Utf16Le) && declared == Encoding::Utf16 {
        Some(current)
    } else {
        None
    }
}

impl PullParser {
    /// Moves on within the declaration.
    fn declare(&mut self, s: DeclarationSubstate) -> (r: Option<Result<XmlEvent, Error>>)
        requires
            old(self).st is InsideDeclaration,
        ensures
            r is None,
            *final(self) == (PullParser { st: State::InsideDeclaration(s), ..*old(self) }),
    {
        self.st = State::InsideDeclaration(s);
        None
    }

    /// Reads one token of the name of a pseudo-attribute, whose first letter
    /// has been read already, and moves on to its value once the name is
    /// complete and is `rest`.
    fn declaration_name(
        &mut self,
        t: Token,
        rest: &str,
        value: DeclarationSubstate,
        after: DeclarationSubstate,
    ) -> (r: Option<Result<XmlEvent, Error>>)
        requires
            old(self).ready(),
            old(self).st is InsideDeclaration,
        ensures
            Self::stepped(*old(self), *final(self), t, r),
            Self::follows(*final(self), r, crate::reader::parser::model::declaration_name(old(self).model(), t, rest@, value, after)),
    {
        let pos = self.lexer.position();
        match read_name(
            &mut self.buf,
            &mut self.read_prefix_separator,
            t,
            QualifiedNameTarget::AttributeNameTarget,
            self.config.max_name_length,
            pos,
        ) {
            NameRead::More => None,
            NameRead::Failed(e) => Some(Err(e)),
            NameRead::Name(name) => {
                if name.prefix.is_none() && crate::text::str_eq(name.local_name.as_str(), rest) {
                    if t == Token::EqualsSign {
                        self.declare(value)
                    } else {
                        self.declare(after)
                    }
                } else {
                    Some(self.error(SyntaxError::UnexpectedNameInsideXml(Box::new(name.to_string()))))
                }
            },
        }
    }

    /// Reads one token of the value of a pseudo-attribute.
    fn declaration_value(&mut self, t: Token) -> (r: ValueRead)
        requires
            old(self).ready(),
            old(self).st is InsideDeclaration,
        ensures
            *final(self) == (PullParser { buf: final(self).buf, data: final(self).data, ..*old(self) }),
            match r {
                ValueRead::Failed(e) => !(e.kind is UnexpectedEof),
                _ => true,
            },
            match crate::reader::parser::model::declaration_value(old(self).model(), t) {
                crate::reader::parser::model::ValueStep::More(b, q) => r is More && final(self).model() == (
                crate::reader::parser::model::ParserView {
                    buf: b,
                    data: crate::reader::parser::model::DataView { quote: q, ..old(self).model().data },
                    ..old(self).model()
                }),
                crate::reader::parser::model::ValueStep::Reference => false,
                crate::reader::parser::model::ValueStep::Value(v) => r matches ValueRead::Value(w) && w@ == v && final(self).model() == crate::reader::parser::model::value_taken(old(self).model()),
                crate::reader::parser::model::ValueStep::Failed(message) => r matches ValueRead::Failed(e)
                    && e.is_syntax(message, old(self).lexer@.pos),
            },
    {
        let pos = self.lexer.position();
        let version11 = self.is_version11();
        match read_value(&mut self.buf, &mut self.data.quote, t, self.config.max_attribute_length, version11, pos) {
            ValueRead::Reference => ValueRead::Failed(
                crate::reader::parser::syntax_error(SyntaxError::UnexpectedToken(t), pos),
            ),
            other => other,
        }
    }

    /// Handles a token of the version of the declaration.
    fn declared_version(&mut self, t: Token, s: DeclarationSubstate) -> (r: Option<Result<XmlEvent, Error>>)
        requires
            old(self).ready(),
            old(self).st == State::InsideDeclaration(s),
            (s == DeclarationSubstate::BeforeVersion || s == DeclarationSubstate::InsideVersion || s == DeclarationSubstate::AfterVersion || s == DeclarationSubstate::InsideVersionValue || s == DeclarationSubstate::AfterVersionValue),
        ensures
            Self::stepped(*old(self), *final(self), t, r),
            Self::follows(*final(self), r, crate::reader::parser::model::inside_declaration(old(self).model(), t, s)),
    {
        let whitespace = match t {
            Token::Character(c) => is_whitespace_char(c),
            _ => false,
        };
        match s {
            DeclarationSubstate::BeforeVersion => {
                if t == Token::Character('v') {
                    self.declare(DeclarationSubstate::InsideVersion)
                } else if whitespace {
                    None
                } else {
                    Some(self.error(SyntaxError::UnexpectedToken(t)))
                }
            },
            DeclarationSubstate::InsideVersion => self.declaration_name(
                t,
                "ersion",
                DeclarationSubstate::InsideVersionValue,
                DeclarationSubstate::AfterVersion,
            ),
            DeclarationSubstate::AfterVersion => {
                if t == Token::EqualsSign {
                    self.declare(DeclarationSubstate::InsideVersionValue)
                } else if whitespace {
                    None
                } else {
                    Some(self.error(SyntaxError::UnexpectedToken(t)))
                }
            },
            DeclarationSubstate::InsideVersionValue => match self.declaration_value(t) {
                ValueRead::More | ValueRead::Reference => None,
                ValueRead::Failed(e) => Some(Err(e)),
                ValueRead::Value(value) => {
                    match XmlVersion::parse(&value, self.config.allow_any_minor_version) {
                        Some(v) => {
                            self.data.version = Some(v);
                            self.declare(DeclarationSubstate::AfterVersionValue)
                        },
                        None => Some(self.error(SyntaxError::UnexpectedXmlVersion(boxed(&value)))),
                    }
                },
            },
            DeclarationSubstate::AfterVersionValue => {
                if whitespace {
                    self.declare(DeclarationSubstate::BeforeEncoding)
                } else if t == Token::ProcessingInstructionEnd {
                    self.emit_start_document()
                } else {
                    Some(self.error(SyntaxError::UnexpectedToken(t)))
                }
            },
            _ => None,
        }
    }

    /// Handles a token of the encoding of the declaration.
    fn declared_encoding(&mut self, t: Token, s: DeclarationSubstate) -> (r: Option<Result<XmlEvent, Error>>)
        requires
            old(self).ready(),
            old(self).st == State::InsideDeclaration(s),
            (s == DeclarationSubstate::BeforeEncoding || s == DeclarationSubstate::InsideEncoding || s == DeclarationSubstate::AfterEncoding || s == DeclarationSubstate::InsideEncodingValue || s == DeclarationSubstate::AfterEncodingValue),
        ensures
            Self::stepped(*old(self), *final(self), t, r),
            Self::follows(*final(self), r, crate::reader::parser::model::inside_declaration(old(self).model(), t, s)),
    {
        let whitespace = match t {
            Token::Character(c) => is_whitespace_char(c),
            _ => false,
        };
        match s {
            DeclarationSubstate::BeforeEncoding => {
                if t == Token::Character('e') {
                    self.declare(DeclarationSubstate::InsideEncoding)
                } else if t == Token::Character('s') {
                    self.declare(DeclarationSubstate::InsideStandaloneDecl)
                } else if t == Token::ProcessingInstructionEnd {
                    self.emit_start_document()
                } else if whitespace {
                    None
                } else {
                    Some(self.error(SyntaxError::UnexpectedToken(t)))
                }
            },
            DeclarationSubstate::InsideEncoding => self.declaration_name(
                t,
                "ncoding",
                DeclarationSubstate::InsideEncodingValue,
                DeclarationSubstate::AfterEncoding,
            ),
            DeclarationSubstate::AfterEncoding => {
                if t == Token::EqualsSign {
                    self.declare(DeclarationSubstate::InsideEncodingValue)
                } else if whitespace {
                    None
                } else {
                    Some(self.error(SyntaxError::UnexpectedToken(t)))
                }
            },
            DeclarationSubstate::InsideEncodingValue => match self.declaration_value(t) {
                ValueRead::More | ValueRead::Reference => None,
                ValueRead::Failed(e) => Some(Err(e)),
                ValueRead::Value(value) => {
                    self.data.encoding = Some(string_from_chars(&value));
                    self.declare(DeclarationSubstate::AfterEncodingValue)
                },
            },
            DeclarationSubstate::AfterEncodingValue => {
                if whitespace {
                    self.declare(DeclarationSubstate::BeforeStandaloneDecl)
                } else if t == Token::ProcessingInstructionEnd {
                    self.emit_start_document()
                } else {
                    Some(self.error(SyntaxError::UnexpectedToken(t)))
                }
            },
            _ => None,
        }
    }

    /// Handles a token of the standalone declaration.
    fn declared_standalone(&mut self, t: Token, s: DeclarationSubstate) -> (r: Option<Result<XmlEvent, Error>>)
        requires
            old(self).ready(),
            old(self).st == State::InsideDeclaration(s),
            (s == DeclarationSubstate::BeforeStandaloneDecl || s == DeclarationSubstate::InsideStandaloneDecl || s == DeclarationSubstate::AfterStandaloneDecl || s == DeclarationSubstate::InsideStandaloneDeclValue || s == DeclarationSubstate::AfterStandaloneDeclValue),
        ensures
            Self::stepped(*old(self), *final(self), t, r),
            Self::follows(*final(self), r, crate::reader::parser::model::inside_declaration(old(self).model(), t, s)),
    {
        let whitespace = match t {
            Token::Character(c) => is_whitespace_char(c),
            _ => false,
        };
        match s {
            DeclarationSubstate::BeforeStandaloneDecl => {
                if t == Token::Character('s') {
                    self.declare(DeclarationSubstate::InsideStandaloneDecl)
                } else if t == Token::ProcessingInstructionEnd {
                    self.emit_start_document()
                } else if whitespace {
                    None
                } else {
                    Some(self.error(SyntaxError::UnexpectedToken(t)))
                }
            },
            DeclarationSubstate::InsideStandaloneDecl => self.declaration_name(
                t,
                "tandalone",
                DeclarationSubstate::InsideStandaloneDeclValue,
                DeclarationSubstate::AfterStandaloneDecl,
            ),
            DeclarationSubstate::AfterStandaloneDecl => {
                if t == Token::EqualsSign {
                    self.declare(DeclarationSubstate::InsideStandaloneDeclValue)
                } else if whitespace {
                    None
                } else {
                    Some(self.error(SyntaxError::UnexpectedToken(t)))
                }
            },
            DeclarationSubstate::InsideStandaloneDeclValue => match self.declaration_value(t) {
                ValueRead::More | ValueRead::Reference => None,
                ValueRead::Failed(e) => Some(Err(e)),
                ValueRead::Value(value) => {
                    if chars_are(&value, "yes") {
                        self.data.standalone = Some(true);
                        self.declare(DeclarationSubstate::AfterStandaloneDeclValue)
                    } else if chars_are(&value, "no") {
                        self.data.standalone = Some(false);
                        self.declare(DeclarationSubstate::AfterStandaloneDeclValue)
                    } else {
                        Some(self.error(SyntaxError::InvalidStandaloneDeclaration(boxed(&value))))
                    }
                },
            },
            DeclarationSubstate::AfterStandaloneDeclValue => {
                if t == Token::ProcessingInstructionEnd {
                    self.emit_start_document()
                } else if whitespace {
                    None
                } else {
                    Some(self.error(SyntaxError::UnexpectedToken(t)))
                }
            },
            _ => None,
        }
    }

    /// Handles a token within the declaration at the start of a document:
    /// a version, then optionally an encoding, then optionally a standalone
    /// declaration.
    pub(crate) fn inside_declaration(&mut self, t: Token, s: DeclarationSubstate) -> (r: Option<Result<XmlEvent, Error>>)
        requires
            old(self).ready(),
            old(self).st == State::InsideDeclaration(s),
        ensures
            Self::stepped(*old(self), *final(self), t, r),
            Self::follows(*final(self), r, crate::reader::parser::model::inside_declaration(old(self).model(), t, s)),
    {
        match s {
            DeclarationSubstate::BeforeVersion | DeclarationSubstate::InsideVersion | DeclarationSubstate::AfterVersion | DeclarationSubstate::InsideVersionValue | DeclarationSubstate::AfterVersionValue => self.declared_version(t, s),
            DeclarationSubstate::BeforeEncoding | DeclarationSubstate::InsideEncoding | DeclarationSubstate::AfterEncoding | DeclarationSubstate::InsideEncodingValue | DeclarationSubstate::AfterEncodingValue => self.declared_encoding(t, s),
            DeclarationSubstate::BeforeStandaloneDecl | DeclarationSubstate::InsideStandaloneDecl | DeclarationSubstate::AfterStandaloneDecl | DeclarationSubstate::InsideStandaloneDeclValue | DeclarationSubstate::AfterStandaloneDeclValue => self.declared_standalone(t, s),
        }
    }

    /// Ends the declaration: settles the encoding and gives the event for the
    /// start of the document.
    ///
    /// Fails where the declared encoding is not known, or contradicts the
    /// one that the document has been read in so far.
    fn emit_start_document(&mut self) -> (r: Option<Result<XmlEvent, Error>>)
        requires
            old(self).ready(),
            old(self).st is InsideDeclaration,
        ensures
            Self::stepped(*old(self), *final(self), Token::ProcessingInstructionEnd, r),
            Self::follows(*final(self), r, crate::reader::parser::model::start_document(old(self).model())),
            r is Some,
            r matches Some(Ok(e)) ==> e is StartDocument,
    {
        self.encountered = Encountered::Declaration;
        let version = match &self.data.version {
            Some(v) => v.clone(),
            None => XmlVersion::Version10,
        };
        let standalone = self.data.standalone;
        let declared_name: Option<String> = self.data.encoding.take();
        if let Some(name) = &declared_name {
            let declared = match Encoding::from_name(name.as_str()) {
                Some(e) => e,
                None => {
                    return Some(self.error(SyntaxError::UnsupportedEncoding(Box::new(name.clone()))));
                },
            };
            let current = self.lexer.encoding();
            match settle_encoding(current, declared) {
                Some(e) => {
                    self.lexer.set_encoding(e);
                },
                None => {
                    return Some(self.error(SyntaxError::ConflictingEncoding(declared, current)));
                },
            }
        }
        let encoding = match declared_name {
            Some(name) => name,
            None => String::from_str(self.lexer.encoding().as_str()),
        };
        self.st = State::OutsideTag;
        Some(Ok(XmlEvent::StartDocument { version, encoding, standalone }))
    }
}

} // verus!
