use xml::common::TextPosition;
use xml::reader::error::{Error, ErrorKind, SyntaxError};
use xml::reader::lexer::Token;
use xml::util::{CharReadError, Encoding};
use xml::writer::EmitterError;

#[test]
fn err_size() {
    assert!(std::mem::size_of::<SyntaxError>() <= 24);
}

#[test]
fn syntax_error_messages() {
    assert_eq!("Entity too big", SyntaxError::EntityTooBig.message());
    assert_eq!("Attribute 'x' is redefined", SyntaxError::RedefinedAttribute(Box::new("x".to_string())).message());
    assert_eq!(
        "Declared encoding UTF-16, but uses UTF-8",
        SyntaxError::ConflictingEncoding(Encoding::Utf16, Encoding::Utf8).message()
    );
    assert_eq!("Invalid character U+000B", SyntaxError::InvalidCharacterEntity(0xB).message());
    assert_eq!("Invalid character U+10FFFF", SyntaxError::InvalidCharacterEntity(0x10FFFF).message());
    assert_eq!(
        "Unexpected token inside qualified name: :",
        SyntaxError::UnexpectedQualifiedName(Token::Character(':')).message()
    );
    assert_eq!(
        "Unexpected token inside processing instruction: <?xml?>",
        SyntaxError::UnexpectedProcessingInstruction(Box::new("xml".to_string()), Token::ProcessingInstructionEnd)
            .message()
    );
    assert_eq!("Unexpected token '<!' before 'x'", SyntaxError::UnexpectedTokenBefore("<!", 'x').message());
    assert_eq!("Unexpected token: <!", SyntaxError::UnexpectedToken(Token::MarkupDeclarationStart).message());
}

#[test]
fn error_message_starts_with_the_position() {
    let e = Error::syntax("Entity too big".to_string(), TextPosition { row: 0, column: 6 });
    assert_eq!("1:7 Entity too big", e.msg());
    assert_eq!(&ErrorKind::Syntax("Entity too big".to_string()), e.kind());
    assert_eq!("Error { pos: 1:7, kind: Syntax(\"Entity too big\") }", e.to_debug_string());
    let far = Error::syntax("x".to_string(), TextPosition { row: u64::MAX, column: 9 });
    assert_eq!("18446744073709551616:10 x", far.msg());
}

#[test]
fn errors_of_other_kinds() {
    let e = Error::from_read(CharReadError::UnexpectedEof);
    assert_eq!(&ErrorKind::UnexpectedEof, e.kind());
    assert_eq!("1:1 Unexpected EOF", e.msg());
    let e = Error::from_read(CharReadError::Utf8(0xFF));
    assert_eq!(&ErrorKind::Utf8(0xFF), e.kind());
    assert_eq!("1:1 invalid UTF-8 sequence starting with byte 0xFF", e.msg());
    let e = Error::from_read(CharReadError::NotAscii(0x80));
    assert_eq!("1:1 char is not ASCII", e.msg());
    let e = Error::from_emitter(EmitterError::DocumentStartAlreadyEmitted);
    assert_eq!("1:1 emitter error: document start event has already been emitted", e.msg());
    let e = Error::from_kind(ErrorKind::Io("gone".to_string()));
    assert_eq!("1:1 gone", e.msg());
    assert_eq!(e.clone(), e);
}

#[test]
fn messages_with_a_name_in_them() {
    let boxed = |s: &str| Box::new(s.to_string());
    assert_eq!("Unexpected name: n", SyntaxError::UnexpectedName(boxed("n")).message());
    assert_eq!("Unexpected entity: e", SyntaxError::UnexpectedEntity(boxed("e")).message());
    assert_eq!("Cannot undefine prefix 'p'", SyntaxError::CannotUndefinePrefix(boxed("p")).message());
    assert_eq!("Undefined entity: e", SyntaxError::UndefinedEntity(boxed("e")).message());
    assert_eq!("Unclosed <![CDATA[", SyntaxError::UnclosedCdata.message());
    assert_eq!(
        "Invalid processing instruction: <?XML\nThe XML spec only allows \"<?xml\" at the very beginning of the file, with no whitespace, comments, or any elements before it",
        SyntaxError::InvalidXmlProcessingInstruction(boxed("XML")).message()
    );
    assert_eq!(
        "emitter error: end element name is not equal to last start element name",
        EmitterError::EndElementNameIsNotEqualToLastStartElementName.message()
    );
    assert_eq!("emitter error: I/O error: disk full", EmitterError::Io("disk full".to_string()).message());
}
