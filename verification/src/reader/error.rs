//! The errors of the reader.

use vstd::prelude::*;
use vstd::string::*;
use crate::common::TextPosition;
use crate::reader::lexer::Token;
use crate::text::{push_str_chars, push_upper_hex, string_from_chars, upper_hex};
use crate::util::{CharReadError, Encoding};
use crate::writer::emitter::EmitterError;

verus! {

/// Why reading failed.
#[derive(Debug, PartialEq, Eq)]
pub enum ErrorKind {
    /// The document is not well formed; the message says how.
    Syntax(String),
    /// The source could not be read, or holds what its encoding does not allow.
    Io(String),
    /// The document holds bytes that are not UTF-8; the first byte of the bad
    /// sequence is given.
    Utf8(u8),
    /// The document ended within a character, a token or an element.
    UnexpectedEof,
    /// An error of the writer, so that one error type serves both.
    EmitterError(EmitterError),
}

/// Why reading failed, as a value.
pub ghost enum KindView {
    Syntax(Seq<char>),
    Io(Seq<char>),
    Utf8(u8),
    UnexpectedEof,
    EmitterError(crate::writer::emitter::EmitterErrorView),
}

impl View for ErrorKind {
    type V = KindView;

    open spec fn view(&self) -> KindView {
        match *self {
            ErrorKind::Syntax(s) => KindView::Syntax(s@),
            ErrorKind::Io(s) => KindView::Io(s@),
            ErrorKind::Utf8(b) => KindView::Utf8(b),
            ErrorKind::UnexpectedEof => KindView::UnexpectedEof,
            ErrorKind::EmitterError(e) => KindView::EmitterError(e@),
        }
    }
}

impl Clone for ErrorKind {
    fn clone(&self) -> (r: Self)
        ensures
            r == *self,
    {
        match self {
            ErrorKind::Syntax(s) => ErrorKind::Syntax(s.clone()),
            ErrorKind::Io(s) => ErrorKind::Io(s.clone()),
            ErrorKind::Utf8(b) => ErrorKind::Utf8(*b),
            ErrorKind::UnexpectedEof => ErrorKind::UnexpectedEof,
            ErrorKind::EmitterError(e) => ErrorKind::EmitterError(e.clone()),
        }
    }
}

impl ErrorKind {
    /// The failure in words.
    pub open spec fn text(&self) -> Seq<char> {
        match *self {
            ErrorKind::Syntax(s) => s@,
            ErrorKind::Io(s) => s@,
            ErrorKind::Utf8(b) => "invalid UTF-8 sequence starting with byte 0x"@ + upper_hex(b as nat, 2),
            ErrorKind::UnexpectedEof => "Unexpected EOF"@,
            ErrorKind::EmitterError(e) => e.text(),
        }
    }

    /// Appends the failure in words to `out`.
    pub fn push_text(&self, out: &mut Vec<char>)
        ensures
            final(out)@ == old(out)@ + self.text(),
    {
        match self {
            ErrorKind::Syntax(s) => push_str_chars(out, s.as_str()),
            ErrorKind::Io(s) => push_str_chars(out, s.as_str()),
            ErrorKind::Utf8(b) => {
                let ghost before = out@;
                push_str_chars(out, "invalid UTF-8 sequence starting with byte 0x");
                push_upper_hex(out, *b as u32, 2);
                assert(out@ == before + ("invalid UTF-8 sequence starting with byte 0x"@ + upper_hex(*b as nat, 2)));
            },
            ErrorKind::UnexpectedEof => push_str_chars(out, "Unexpected EOF"),
            ErrorKind::EmitterError(e) => {
                let m = e.message();
                push_str_chars(out, m.as_str());
            },
        }
    }

    /// The kind of error that a failed read of a character gives.
    pub open spec fn of_read(e: CharReadError) -> KindView {
        match e {
            CharReadError::UnexpectedEof => KindView::UnexpectedEof,
            CharReadError::Utf8(b) => KindView::Utf8(b),
            CharReadError::NotAscii(_) => KindView::Io("char is not ASCII"@),
            CharReadError::Utf16(_) => KindView::Io("unpaired UTF-16 surrogate"@),
        }
    }
}

/// A condition that makes a document ill-formed.
#[derive(Debug, PartialEq)]
pub enum SyntaxError {
    CannotRedefineXmlnsPrefix,
    CannotRedefineXmlPrefix,
    /// An entity expanded too deep or to too many characters.
    EntityTooBig,
    EmptyEntity,
    NoRootElement,
    ProcessingInstructionWithoutName,
    UnbalancedRootElement,
    UnexpectedEof,
    UnexpectedOpeningTag,
    /// `]]>` is missing.
    UnclosedCdata,
    UnexpectedQualifiedName(Token),
    UnexpectedTokenOutsideRoot(Token),
    UnexpectedToken(Token),
    UnexpectedTokenInEntity(Token),
    UnexpectedTokenInClosingTag(Token),
    UnexpectedTokenInOpeningTag(Token),
    InvalidQualifiedName(Box<String>),
    UnboundAttribute(Box<String>),
    UnboundElementPrefix(Box<String>),
    UnexpectedClosingTag(Box<String>),
    UnexpectedName(Box<String>),
    /// A processing instruction named like the XML declaration, not at the
    /// start of the document.
    UnexpectedProcessingInstruction(Box<String>, Token),
    CannotUndefinePrefix(Box<String>),
    InvalidCharacterEntity(u32),
    InvalidDefaultNamespace(Box<String>),
    InvalidNamePrefix(Box<String>),
    InvalidNumericEntity(Box<String>),
    InvalidStandaloneDeclaration(Box<String>),
    InvalidXmlProcessingInstruction(Box<String>),
    RedefinedAttribute(Box<String>),
    UndefinedEntity(Box<String>),
    UnexpectedEntity(Box<String>),
    UnexpectedNameInsideXml(Box<String>),
    UnsupportedEncoding(Box<String>),
    /// In a document type declaration.
    UnknownMarkupDeclaration(Box<String>),
    UnexpectedXmlVersion(Box<String>),
    ConflictingEncoding(Encoding, Encoding),
    UnexpectedTokenBefore(&'static str, char),
    /// The document holds more than the configuration allows.
    ExceededConfiguredLimit,
}

/// `head`, then `body`, then `tail`.
fn framed(head: &str, body: &str, tail: &str) -> (r: String)
    ensures
        r@ == head@ + body@ + tail@,
{
    let mut r = String::from_str(head);
    r.append(body);
    r.append(tail);
    r
}

/// `head`, then `body`.
fn joined(head: &str, body: &str) -> (r: String)
    ensures
        r@ == head@ + body@,
{
    let mut r = String::from_str(head);
    r.append(body);
    r
}

/// `head`, then the token as it is shown in a message.
fn with_token(head: &str, token: Token) -> (r: String)
    ensures
        r@ == head@ + token.text(),
{
    let mut v: Vec<char> = Vec::new();
    push_str_chars(&mut v, head);
    token.push_text(&mut v);
    string_from_chars(&v)
}

impl SyntaxError {
    /// The message for the condition.
    pub open spec fn text(&self) -> Seq<char> {
        match *self {
            SyntaxError::CannotRedefineXmlnsPrefix => "Cannot redefine XMLNS prefix"@,
            SyntaxError::CannotRedefineXmlPrefix => "Default XMLNS prefix cannot be rebound to another value"@,
            SyntaxError::EmptyEntity => "Encountered empty entity"@,
            SyntaxError::EntityTooBig => "Entity too big"@,
            SyntaxError::NoRootElement => "Unexpected end of stream: no root element found"@,
            SyntaxError::ProcessingInstructionWithoutName => "Encountered processing instruction without a name"@,
            SyntaxError::UnbalancedRootElement => "Unexpected end of stream: still inside the root element"@,
            SyntaxError::UnclosedCdata => "Unclosed <![CDATA["@,
            SyntaxError::UnexpectedEof => "Unexpected end of stream"@,
            SyntaxError::UnexpectedOpeningTag => "'<' is not allowed in attributes"@,
            SyntaxError::CannotUndefinePrefix(ln) => "Cannot undefine prefix '"@ + ln@ + "'"@,
            SyntaxError::ConflictingEncoding(a, b) => "Declared encoding "@ + a.name() + ", but uses "@ + b.name(),
            SyntaxError::InvalidCharacterEntity(num) => "Invalid character U+"@ + upper_hex(num as nat, 4),
            SyntaxError::InvalidDefaultNamespace(name) => "Namespace '"@ + name@ + "' cannot be default"@,
            SyntaxError::InvalidNamePrefix(prefix) => "'"@ + prefix@ + "' cannot be an element name prefix"@,
            SyntaxError::InvalidNumericEntity(v) => "Invalid numeric entity: "@ + v@,
            SyntaxError::InvalidQualifiedName(e) => "Qualified name is invalid: "@ + e@,
            SyntaxError::InvalidStandaloneDeclaration(value) => "Invalid standalone declaration value: "@ + value@
               ,
            SyntaxError::InvalidXmlProcessingInstruction(name) => "Invalid processing instruction: <?"@ + name@
                + "\nThe XML spec only allows \"<?xml\" at the very beginning of the file, with no whitespace, comments, or any elements before it"@,
            SyntaxError::RedefinedAttribute(name) => "Attribute '"@ + name@ + "' is redefined"@,
            SyntaxError::UnboundAttribute(name) => "Attribute "@ + name@ + " prefix is unbound"@,
            SyntaxError::UnboundElementPrefix(name) => "Element "@ + name@ + " prefix is unbound"@,
            SyntaxError::UndefinedEntity(v) => "Undefined entity: "@ + v@,
            SyntaxError::UnexpectedClosingTag(expected_got) => "Unexpected closing tag: "@ + expected_got@,
            SyntaxError::UnexpectedEntity(name) => "Unexpected entity: "@ + name@,
            SyntaxError::UnexpectedName(name) => "Unexpected name: "@ + name@,
            SyntaxError::UnexpectedNameInsideXml(name) => "Unexpected name inside XML declaration: "@ + name@,
            SyntaxError::UnexpectedProcessingInstruction(buf, token) => {
                "Unexpected token inside processing instruction: <?"@ + buf@ + token.text()
            },
            SyntaxError::UnexpectedQualifiedName(e) => "Unexpected token inside qualified name: "@ + e.text(),
            SyntaxError::UnexpectedToken(token) => "Unexpected token: "@ + token.text(),
            SyntaxError::UnexpectedTokenBefore(before, c) => "Unexpected token '"@ + before@ + "' before '"@ + seq![c]
                + "'"@,
            SyntaxError::UnexpectedTokenInClosingTag(token) => "Unexpected token inside closing tag: "@
                + token.text(),
            SyntaxError::UnexpectedTokenInEntity(token) => "Unexpected token inside entity: "@ + token.text(),
            SyntaxError::UnexpectedTokenInOpeningTag(token) => "Unexpected token inside opening tag: "@
                + token.text(),
            SyntaxError::UnexpectedTokenOutsideRoot(token) => "Unexpected characters outside the root element: "@
                + token.text(),
            SyntaxError::UnexpectedXmlVersion(version) => "Invalid XML version: "@ + version@,
            SyntaxError::UnknownMarkupDeclaration(v) => "Unknown markup declaration: "@ + v@,
            SyntaxError::UnsupportedEncoding(v) => "Unsupported encoding: "@ + v@,
            SyntaxError::ExceededConfiguredLimit => {
                "This document is larger/more complex than allowed by the parser's configuration"@
            },
        }
    }

    /// The message for the condition.
    pub fn message(&self) -> (r: String)
        ensures
            r@ == self.text(),
    {
        match self {
            SyntaxError::CannotRedefineXmlnsPrefix => String::from_str("Cannot redefine XMLNS prefix"),
            SyntaxError::CannotRedefineXmlPrefix => {
                String::from_str("Default XMLNS prefix cannot be rebound to another value")
            },
            SyntaxError::EmptyEntity => String::from_str("Encountered empty entity"),
            SyntaxError::EntityTooBig => String::from_str("Entity too big"),
            SyntaxError::NoRootElement => String::from_str("Unexpected end of stream: no root element found"),
            SyntaxError::ProcessingInstructionWithoutName => {
                String::from_str("Encountered processing instruction without a name")
            },
            SyntaxError::UnbalancedRootElement => {
                String::from_str("Unexpected end of stream: still inside the root element")
            },
            SyntaxError::UnclosedCdata => String::from_str("Unclosed <![CDATA["),
            SyntaxError::UnexpectedEof => String::from_str("Unexpected end of stream"),
            SyntaxError::UnexpectedOpeningTag => String::from_str("'<' is not allowed in attributes"),
            SyntaxError::CannotUndefinePrefix(ln) => framed("Cannot undefine prefix '", ln.as_str(), "'"),
            SyntaxError::ConflictingEncoding(a, b) => {
                let mut r = framed("Declared encoding ", a.as_str(), ", but uses ");
                r.append(b.as_str());
                r
            },
            SyntaxError::InvalidCharacterEntity(num) => {
                let mut v: Vec<char> = Vec::new();
                push_str_chars(&mut v, "Invalid character U+");
                push_upper_hex(&mut v, *num, 4);
                string_from_chars(&v)
            },
            SyntaxError::InvalidDefaultNamespace(name) => framed("Namespace '", name.as_str(), "' cannot be default"),
            SyntaxError::InvalidNamePrefix(prefix) => {
                framed("'", prefix.as_str(), "' cannot be an element name prefix")
            },
            SyntaxError::InvalidNumericEntity(v) => joined("Invalid numeric entity: ", v.as_str()),
            SyntaxError::InvalidQualifiedName(e) => joined("Qualified name is invalid: ", e.as_str()),
            SyntaxError::InvalidStandaloneDeclaration(value) => {
                joined("Invalid standalone declaration value: ", value.as_str())
            },
            SyntaxError::InvalidXmlProcessingInstruction(name) => framed(
                "Invalid processing instruction: <?",
                name.as_str(),
                "\nThe XML spec only allows \"<?xml\" at the very beginning of the file, with no whitespace, comments, or any elements before it",
            ),
            SyntaxError::RedefinedAttribute(name) => framed("Attribute '", name.as_str(), "' is redefined"),
            SyntaxError::UnboundAttribute(name) => framed("Attribute ", name.as_str(), " prefix is unbound"),
            SyntaxError::UnboundElementPrefix(name) => framed("Element ", name.as_str(), " prefix is unbound"),
            SyntaxError::UndefinedEntity(v) => joined("Undefined entity: ", v.as_str()),
            SyntaxError::UnexpectedClosingTag(expected_got) => {
                joined("Unexpected closing tag: ", expected_got.as_str())
            },
            SyntaxError::UnexpectedEntity(name) => joined("Unexpected entity: ", name.as_str()),
            SyntaxError::UnexpectedName(name) => joined("Unexpected name: ", name.as_str()),
            SyntaxError::UnexpectedNameInsideXml(name) => {
                joined("Unexpected name inside XML declaration: ", name.as_str())
            },
            SyntaxError::UnexpectedProcessingInstruction(buf, token) => {
                let mut v: Vec<char> = Vec::new();
                push_str_chars(&mut v, "Unexpected token inside processing instruction: <?");
                push_str_chars(&mut v, buf.as_str());
                token.push_text(&mut v);
                string_from_chars(&v)
            },
            SyntaxError::UnexpectedQualifiedName(e) => with_token("Unexpected token inside qualified name: ", *e),
            SyntaxError::UnexpectedToken(token) => with_token("Unexpected token: ", *token),
            SyntaxError::UnexpectedTokenBefore(before, c) => {
                let mut v: Vec<char> = Vec::new();
                push_str_chars(&mut v, "Unexpected token '");
                push_str_chars(&mut v, before);
                push_str_chars(&mut v, "' before '");
                v.push(*c);
                push_str_chars(&mut v, "'");
                assert(v@ == "Unexpected token '"@ + before@ + "' before '"@ + seq![*c] + "'"@);
                string_from_chars(&v)
            },
            SyntaxError::UnexpectedTokenInClosingTag(token) => {
                with_token("Unexpected token inside closing tag: ", *token)
            },
            SyntaxError::UnexpectedTokenInEntity(token) => with_token("Unexpected token inside entity: ", *token),
            SyntaxError::UnexpectedTokenInOpeningTag(token) => {
                with_token("Unexpected token inside opening tag: ", *token)
            },
            SyntaxError::UnexpectedTokenOutsideRoot(token) => {
                with_token("Unexpected characters outside the root element: ", *token)
            },
            SyntaxError::UnexpectedXmlVersion(version) => joined("Invalid XML version: ", version.as_str()),
            SyntaxError::UnknownMarkupDeclaration(v) => joined("Unknown markup declaration: ", v.as_str()),
            SyntaxError::UnsupportedEncoding(v) => joined("Unsupported encoding: ", v.as_str()),
            SyntaxError::ExceededConfiguredLimit => String::from_str(
                "This document is larger/more complex than allowed by the parser's configuration",
            ),
        }
    }
}

/// An error of the reader: what went wrong, and where in the document.
#[derive(Debug, PartialEq, Eq)]
pub struct Error {
    /// Where in the document the error was found.
    pub pos: TextPosition,
    /// What went wrong.
    pub kind: ErrorKind,
}

impl Clone for Error {
    fn clone(&self) -> (r: Self)
        ensures
            r == *self,
    {
        Error { pos: self.pos, kind: self.kind.clone() }
    }
}

impl Error {
    /// Whether this is a syntax error with the given message at the given
    /// position.
    pub open spec fn is_syntax(&self, message: Seq<char>, pos: TextPosition) -> bool {
        &&& self.pos == pos
        &&& self.kind matches ErrorKind::Syntax(s) && s@ == message
    }

    /// The error in words: the position, a space, and what went wrong.
    pub open spec fn text(&self) -> Seq<char> {
        self.pos.text() + " "@ + self.kind.text()
    }

    /// The error in words: the position, a space, and what went wrong.
    pub fn msg(&self) -> (r: String)
        ensures
            r@ == self.text(),
    {
        let mut v: Vec<char> = Vec::new();
        self.pos.push_to(&mut v);
        push_str_chars(&mut v, " ");
        self.kind.push_text(&mut v);
        string_from_chars(&v)
    }

    /// What went wrong.
    pub fn kind(&self) -> (r: &ErrorKind)
        ensures
            *r == self.kind,
    {
        &self.kind
    }

    /// Where in the document the error was found.
    pub fn position(&self) -> (r: TextPosition)
        ensures
            r == self.pos,
    {
        self.pos
    }

    /// A syntax error with the given message at the given position.
    pub fn syntax(message: String, pos: TextPosition) -> (r: Error)
        ensures
            r.is_syntax(message@, pos),
            r.kind == ErrorKind::Syntax(message),
    {
        Error { kind: ErrorKind::Syntax(message), pos }
    }

    /// The error for a character that could not be read.  It carries the
    /// position of the start of the document.
    pub fn from_read(e: CharReadError) -> (r: Error)
        ensures
            r.pos == (TextPosition { row: 0, column: 0 }),
            r.kind@ == ErrorKind::of_read(e),
    {
        let kind = match e {
            CharReadError::UnexpectedEof => ErrorKind::UnexpectedEof,
            CharReadError::Utf8(b) => ErrorKind::Utf8(b),
            CharReadError::NotAscii(_) => ErrorKind::Io(String::from_str("char is not ASCII")),
            CharReadError::Utf16(_) => ErrorKind::Io(String::from_str("unpaired UTF-16 surrogate")),
        };
        Error { pos: TextPosition::new(), kind }
    }

    /// An error of the given kind at the start of the document.
    pub fn from_kind(kind: ErrorKind) -> (r: Error)
        ensures
            r.kind == kind,
            r.pos == (TextPosition { row: 0, column: 0 }),
    {
        Error { kind, pos: TextPosition::new() }
    }

    /// The writer's error as an error of the reader, at the start of the
    /// document.
    pub fn from_emitter(e: EmitterError) -> (r: Error)
        ensures
            r.kind == ErrorKind::EmitterError(e),
            r.pos == (TextPosition { row: 0, column: 0 }),
    {
        Error { kind: ErrorKind::EmitterError(e), pos: TextPosition::new() }
    }

    /// The error as a developer reads it: the position as `row:column`
    /// counted from one, and the kind with its message between double quotes.
    pub open spec fn debug_text(&self) -> Seq<char> {
        "Error { pos: "@ + self.pos.text() + ", kind: "@ + (match self.kind {
            ErrorKind::Syntax(s) => "Syntax(\""@ + s@ + "\")"@,
            ErrorKind::Io(s) => "Io(\""@ + s@ + "\")"@,
            ErrorKind::Utf8(b) => "Utf8(0x"@ + upper_hex(b as nat, 2) + ")"@,
            ErrorKind::UnexpectedEof => "UnexpectedEof"@,
            ErrorKind::EmitterError(e) => "EmitterError(\""@ + e.text() + "\")"@,
        }) + " }"@
    }

    /// The error as a developer reads it.
    pub fn to_debug_string(&self) -> (r: String)
        ensures
            r@ == self.debug_text(),
    {
        let mut v: Vec<char> = Vec::new();
        push_str_chars(&mut v, "Error { pos: ");
        self.pos.push_to(&mut v);
        push_str_chars(&mut v, ", kind: ");
        let ghost head = v@;
        match &self.kind {
            ErrorKind::Syntax(s) => {
                push_str_chars(&mut v, "Syntax(\"");
                push_str_chars(&mut v, s.as_str());
                push_str_chars(&mut v, "\")");
                assert(v@ == head + ("Syntax(\""@ + s@ + "\")"@));
            },
            ErrorKind::Io(s) => {
                push_str_chars(&mut v, "Io(\"");
                push_str_chars(&mut v, s.as_str());
                push_str_chars(&mut v, "\")");
                assert(v@ == head + ("Io(\""@ + s@ + "\")"@));
            },
            ErrorKind::Utf8(b) => {
                push_str_chars(&mut v, "Utf8(0x");
                push_upper_hex(&mut v, *b as u32, 2);
                push_str_chars(&mut v, ")");
                assert(v@ == head + ("Utf8(0x"@ + upper_hex(*b as nat, 2) + ")"@));
            },
            ErrorKind::UnexpectedEof => {
                push_str_chars(&mut v, "UnexpectedEof");
            },
            ErrorKind::EmitterError(e) => {
                push_str_chars(&mut v, "EmitterError(\"");
                let m = e.message();
                push_str_chars(&mut v, m.as_str());
                push_str_chars(&mut v, "\")");
                assert(v@ == head + ("EmitterError(\""@ + e.text() + "\")"@));
            },
        }
        push_str_chars(&mut v, " }");
        string_from_chars(&v)
    }
}

} // verus!
