//! The pull parser: tokens in, events out.
//!
//! The parser is a state machine over tokens.  Each token is handed to the
//! handler of the state that the parser is in; the handler may change the
//! state and may give an event or an error.

use vstd::prelude::*;
use vstd::string::*;
use crate::attribute::OwnedAttribute;
use crate::common::{
    is_name_char, is_name_start_char, is_whitespace, is_whitespace_char, is_xml10_char, is_xml11_char,
    is_xml11_char_not_restricted, TextPosition, XmlVersion,
};
use crate::name::{NameView, OwnedName};
use crate::namespace::{bound, lookup, squashed, Bindings, NamespaceStack};
use crate::reader::config::ParserConfig;
use crate::reader::error::{Error, ErrorKind, SyntaxError};
use crate::reader::events::{attribute_resolved, polled, resolved, EventView, Polled, XmlEvent};
use crate::reader::lexer::{Lexer, LexerView, Token};
use crate::reader::parser::model::{
    entity_at, name_step, numeric, pairs, resolved_name, value_step, DataView, NameStep, ParserView, ValueStep,
};
use crate::text::{char_from_u32, chars_are, push_str_chars, string_from_chars};
use crate::util::{ByteSource, CharReader};

pub mod inside_cdata;
pub mod inside_closing_tag_name;
pub mod inside_comment;
pub mod inside_declaration;
pub mod inside_doctype;
pub mod inside_opening_tag;
pub mod inside_processing_instruction;
pub mod inside_reference;
pub mod model;
pub mod outside_tag;

verus! {

/// The states of the parser.
#[derive(Copy, Clone, PartialEq, Eq, Structural, Debug)]
pub enum State {
    /// Nothing has been read yet.
    DocumentStart,
    /// Between pieces of markup.
    OutsideTag,
    /// Within a start tag.
    InsideOpeningTag(OpeningTagSubstate),
    /// Within an end tag.
    InsideClosingTag(ClosingTagSubstate),
    /// Within a processing instruction.
    InsideProcessingInstruction(ProcessingInstructionSubstate),
    /// Within a comment.
    InsideComment,
    /// Within a CDATA section.
    InsideCData,
    /// Within the declaration at the start of the document.
    InsideDeclaration(DeclarationSubstate),
    /// Within a document type declaration.
    InsideDoctype(DoctypeSubstate),
    /// Within a reference to a character or an entity.
    InsideReference,
}

#[derive(Copy, Clone, PartialEq, Eq, Structural, Debug)]
pub enum DoctypeSubstate {
    /// Before the name of the root element.
    BeforeName,
    /// Within the name of the root element.
    Name,
    /// After the name, before an identifier or the internal subset.
    AfterName,
    /// Within `SYSTEM` or `PUBLIC`.
    Keyword,
    /// Before the public identifier.
    BeforePublicId,
    /// Within the public identifier.
    PublicId,
    /// Before the system identifier.
    BeforeSystemId,
    /// Within the system identifier.
    SystemId,
    /// After the identifiers, before the internal subset or the end.
    AfterIds,
    /// After the internal subset.
    AfterSubset,
    /// Within the internal subset, between declarations.
    Outside,
    /// Within a quoted string that is skipped.
    String,
    /// Within the keyword of a markup declaration.
    InsideName,
    BeforeEntityName,
    EntityName,
    BeforeEntityValue,
    EntityValue,
    NumericReferenceStart,
    NumericReference,
    /// Within a reference to a parameter entity in an entity value.
    PEReferenceInValue,
    /// Within a reference to a parameter entity between declarations.
    PEReferenceInDtd,
    /// After the `%` of the declaration of a parameter entity.
    PEReferenceDefinitionStart,
    /// Within the name of a parameter entity that is declared.
    PEReferenceDefinition,
    /// Within a declaration that is skipped.
    SkipDeclaration,
    /// Within a comment.
    Comment,
    /// Within a processing instruction.
    ProcessingInstruction,
}

#[derive(Copy, Clone, PartialEq, Eq, Structural, Debug)]
pub enum OpeningTagSubstate {
    InsideName,
    InsideTag,
    InsideAttributeName,
    AfterAttributeName,
    InsideAttributeValue,
    AfterAttributeValue,
}

#[derive(Copy, Clone, PartialEq, Eq, Structural, Debug)]
pub enum ClosingTagSubstate {
    CTInsideName,
    CTAfterName,
}

#[derive(Copy, Clone, PartialEq, Eq, Structural, Debug)]
pub enum ProcessingInstructionSubstate {
    PIInsideName,
    PIInsideData,
}

#[derive(Copy, Clone, PartialEq, Eq, Structural, Debug)]
pub enum DeclarationSubstate {
    BeforeVersion,
    InsideVersion,
    AfterVersion,
    InsideVersionValue,
    AfterVersionValue,
    BeforeEncoding,
    InsideEncoding,
    AfterEncoding,
    InsideEncodingValue,
    AfterEncodingValue,
    BeforeStandaloneDecl,
    InsideStandaloneDecl,
    AfterStandaloneDecl,
    InsideStandaloneDeclValue,
    AfterStandaloneDeclValue,
}

/// What a qualified name is the name of.
#[derive(Copy, Clone, PartialEq, Eq, Structural, Debug)]
pub enum QualifiedNameTarget {
    AttributeNameTarget,
    OpeningTagNameTarget,
    ClosingTagNameTarget,
}

/// The quote that opened a value.
#[derive(Copy, Clone, PartialEq, Eq, Structural, Debug)]
pub enum QuoteToken {
    SingleQuoteToken,
    DoubleQuoteToken,
}

/// How far into the document the parser has come.
#[derive(Copy, Clone, PartialEq, Eq, Structural, Debug)]
pub enum Encountered {
    Nothing,
    AnyChars,
    Declaration,
    Comment,
    Doctype,
    Element,
}

impl Encountered {
    /// The place of the stage in the order of a document.
    pub open spec fn rank(self) -> nat {
        match self {
            Encountered::Nothing => 0,
            Encountered::AnyChars => 1,
            Encountered::Declaration => 2,
            Encountered::Comment => 3,
            Encountered::Doctype => 4,
            Encountered::Element => 5,
        }
    }

    /// The place of the stage in the order of a document.
    pub fn order(self) -> (r: u8)
        ensures
            r == self.rank(),
    {
        match self {
            Encountered::Nothing => 0,
            Encountered::AnyChars => 1,
            Encountered::Declaration => 2,
            Encountered::Comment => 3,
            Encountered::Doctype => 4,
            Encountered::Element => 5,
        }
    }
}

/// The parts of the piece of markup that is being read.
pub struct MarkupData {
    pub name: Vec<char>,
    pub ref_data: Vec<char>,
    pub doctype: Vec<char>,
    pub doctype_name: Vec<char>,
    pub public_id: Option<String>,
    pub system_id: Option<String>,
    pub version: Option<XmlVersion>,
    pub encoding: Option<String>,
    pub standalone: Option<bool>,
    pub element_name: OwnedName,
    pub quote: Option<QuoteToken>,
    pub attr_name: OwnedName,
    pub attributes: Vec<OwnedAttribute>,
}

/// What reading a qualified name has come to.
pub enum NameRead {
    /// The name goes on.
    More,
    /// The name is complete; the token that ended it is still to be handled.
    Name(OwnedName),
    /// The name cannot be read.
    Failed(Error),
}

/// What reading a quoted value has come to.
pub enum ValueRead {
    /// The value goes on.
    More,
    /// A reference starts.
    Reference,
    /// The value is complete.
    Value(Vec<char>),
    /// The value cannot be read.
    Failed(Error),
}

/// The characters of `v`; `v` is empty afterwards.
pub fn take_chars(v: &mut Vec<char>) -> (r: Vec<char>)
    ensures
        r@ == old(v)@,
        final(v)@ == Seq::<char>::empty(),
{
    let mut r: Vec<char> = Vec::new();
    core::mem::swap(v, &mut r);
    assert(v@ =~= Seq::<char>::empty());
    r
}

/// The characters of `v` as a string; `v` is empty afterwards.
pub fn take_string(v: &mut Vec<char>) -> (r: String)
    ensures
        r@ == old(v)@,
        final(v)@ == Seq::<char>::empty(),
{
    let r = string_from_chars(v);
    v.clear();
    r
}

/// The name read so far; `name` is the empty name afterwards.
pub fn take_name(name: &mut OwnedName) -> (r: OwnedName)
    ensures
        r == *old(name),
        final(name)@ == crate::reader::parser::model::no_name(),
{
    let mut r = OwnedName { local_name: String::new(), namespace: None, prefix: None };
    core::mem::swap(name, &mut r);
    r
}

/// The positions of a parser that has read nothing.
pub fn first_position() -> (r: Vec<TextPosition>)
    ensures
        r@ == seq![TextPosition { row: 0, column: 0 }],
{
    let mut r: Vec<TextPosition> = Vec::new();
    r.push(TextPosition::new());
    r
}

/// Moves on to the position of the next event: the first position is
/// dropped; where it is the only one, its place is taken by `now`.
pub fn advance_positions(pos: &mut Vec<TextPosition>, now: TextPosition)
    ensures
        final(pos)@ == crate::reader::parser::model::advanced_positions(old(pos)@, now),
{
    if pos.len() > 1 {
        let _ = pos.remove(0);
        assert(pos@ =~= old(pos)@.drop_first());
    } else if pos.len() == 1 {
        pos[0] = now;
        assert(pos@ =~= seq![now]);
    }
}

/// A syntax error at a position.
pub fn syntax_error(e: SyntaxError, pos: TextPosition) -> (r: Error)
    ensures
        r.is_syntax(e.text(), pos),
        !(r.kind is UnexpectedEof),
{
    Error::syntax(e.message(), pos)
}

/// `s` in a box, for an error that carries it.
pub fn boxed(s: &Vec<char>) -> (r: Box<String>)
    ensures
        r@ == s@,
{
    Box::new(string_from_chars(s))
}

/// Whether `c` is allowed in a document of the given version.
pub fn is_valid_xml_char(c: char, version11: bool) -> (r: bool)
    ensures
        r == (if version11 { crate::common::is_xml11(c) } else { crate::common::is_xml10(c) }),
{
    if version11 {
        is_xml11_char(c)
    } else {
        is_xml10_char(c)
    }
}

/// Whether `c` is allowed in a document of the given version without a
/// character reference.
pub fn is_valid_xml_char_not_restricted(c: char, version11: bool) -> (r: bool)
    ensures
        r == (if version11 { crate::common::is_xml11_not_restricted(c) } else { crate::common::is_xml10(c) }),
{
    if version11 {
        is_xml11_char_not_restricted(c)
    } else {
        is_xml10_char(c)
    }
}

/// Reads one token of a qualified name into `buf`.
///
/// A name character is added to the name, a colon only once and not at the
/// start.  A token that may follow a name of this kind ends it; any other
/// token is an error, and so is a name that is too long or is no qualified
/// name.
pub fn read_name(
    buf: &mut Vec<char>,
    seen_colon: &mut bool,
    t: Token,
    target: QualifiedNameTarget,
    max_name_length: usize,
    pos: TextPosition,
) -> (r: NameRead)
    ensures
        match name_step(old(buf)@, *old(seen_colon), t, target, max_name_length) {
            NameStep::More(b, seen) => r is More && final(buf)@ == b && *final(seen_colon) == seen,
            NameStep::Name(n) => r matches NameRead::Name(m) && m@ == n && final(buf)@ == Seq::<char>::empty() && *final(seen_colon) == (if old(buf)@.len() <= 1 { false } else { *old(seen_colon) }),
            NameStep::Failed(message) => r matches NameRead::Failed(e) && e.is_syntax(message, pos),
        },
{
    if buf.len() <= 1 {
        *seen_colon = false;
    }
    let ends_name = match t {
        Token::Character(c) => {
            if c == ':' && buf.len() > 0 && !*seen_colon {
                buf.push(':');
                *seen_colon = true;
                return NameRead::More;
            }
            if c != ':' && ((buf.len() == 0 && is_name_start_char(c)) || (buf.len() > 0 && is_name_char(c))) {
                if buf.len() > max_name_length {
                    return NameRead::Failed(syntax_error(SyntaxError::ExceededConfiguredLimit, pos));
                }
                buf.push(c);
                return NameRead::More;
            }
            is_whitespace_char(c)
        },
        Token::EqualsSign => target == QualifiedNameTarget::AttributeNameTarget,
        Token::EmptyTagEnd => target == QualifiedNameTarget::OpeningTagNameTarget,
        Token::TagEnd => target == QualifiedNameTarget::OpeningTagNameTarget || target
            == QualifiedNameTarget::ClosingTagNameTarget,
        _ => false,
    };
    if !ends_name {
        return NameRead::Failed(syntax_error(SyntaxError::UnexpectedQualifiedName(t), pos));
    }
    let name = take_chars(buf);
    match OwnedName::parse(&name) {
        Some(n) => NameRead::Name(n),
        None => NameRead::Failed(syntax_error(SyntaxError::InvalidQualifiedName(boxed(&name)), pos)),
    }
}

/// Reads one token of a quoted value into `buf`.
///
/// White space before the opening quote is skipped.  Between the quotes
/// every token but `<` and the closing quote is part of the value; `&` starts
/// a reference.
pub fn read_value(
    buf: &mut Vec<char>,
    quote: &mut Option<QuoteToken>,
    t: Token,
    max_length: usize,
    version11: bool,
    pos: TextPosition,
) -> (r: ValueRead)
    ensures
        match value_step(old(buf)@, *old(quote), t, max_length, version11) {
            ValueStep::More(b, q) => r is More && final(buf)@ == b && *final(quote) == q,
            ValueStep::Reference => r is Reference && final(buf)@ == old(buf)@ && *final(quote) == *old(quote),
            ValueStep::Value(v) => r matches ValueRead::Value(w) && w@ == v && final(buf)@ == Seq::<char>::empty() && *final(quote) is None,
            ValueStep::Failed(message) => r matches ValueRead::Failed(e) && e.is_syntax(message, pos),
        },
{
    match t {
        Token::Character(c) => {
            if quote.is_none() && is_whitespace_char(c) {
                return ValueRead::More;
            }
            if !is_valid_xml_char_not_restricted(c, version11) {
                return ValueRead::Failed(syntax_error(SyntaxError::InvalidCharacterEntity(c as u32), pos));
            }
        },
        Token::DoubleQuote | Token::SingleQuote => {
            let this = if t == Token::DoubleQuote {
                QuoteToken::DoubleQuoteToken
            } else {
                QuoteToken::SingleQuoteToken
            };
            match *quote {
                None => {
                    *quote = Some(this);
                    return ValueRead::More;
                },
                Some(q) => {
                    if q == this {
                        *quote = None;
                        return ValueRead::Value(take_chars(buf));
                    }
                },
            }
        },
        Token::ReferenceStart => {
            if quote.is_some() {
                return ValueRead::Reference;
            }
        },
        Token::OpeningTagStart => {
            return ValueRead::Failed(syntax_error(SyntaxError::UnexpectedOpeningTag, pos));
        },
        _ => {},
    }
    if quote.is_some() {
        if buf.len() > max_length {
            return ValueRead::Failed(syntax_error(SyntaxError::ExceededConfiguredLimit, pos));
        }
        t.push_to_chars(buf);
        ValueRead::More
    } else {
        ValueRead::Failed(syntax_error(SyntaxError::UnexpectedToken(t), pos))
    }
}

/// The value of a digit in the given radix.
pub open spec fn digit_value(c: char, radix: nat) -> Option<nat> {
    let u = c as u32;
    let v: int = if '0' <= c && c <= '9' {
        u - 48
    } else if 'a' <= c && c <= 'f' {
        u - 87
    } else if 'A' <= c && c <= 'F' {
        u - 55
    } else {
        16
    };
    if v < radix {
        Some(v as nat)
    } else {
        None
    }
}

/// The number that the digits `s` write in the given radix, if all of them
/// are digits.  No digits write nothing.
pub open spec fn number(s: Seq<char>, radix: nat) -> Option<nat>
    decreases s.len(),
{
    if s.len() == 0 {
        None
    } else if s.len() == 1 {
        digit_value(s[0], radix)
    } else {
        match (number(s.drop_last(), radix), digit_value(s.last(), radix)) {
            (Some(n), Some(d)) => Some(n * radix + d),
            _ => None,
        }
    }
}

/// The code point that a numeric character reference names: decimal digits
/// after `#`, or hexadecimal digits after `#x`.  `body` is what stands
/// between `&#` and `;`.
pub open spec fn referenced_code(body: Seq<char>) -> Option<nat> {
    if body.len() > 0 && body[0] == 'x' {
        number(body.skip(1), 16)
    } else {
        number(body, 10)
    }
}

/// The value of a digit in the given radix.
pub fn digit_of(c: char, radix: u32) -> (r: Option<u32>)
    requires
        radix == 10 || radix == 16,
    ensures
        match r {
            Some(d) => digit_value(c, radix as nat) == Some(d as nat) && d < radix,
            None => digit_value(c, radix as nat) is None,
        },
{
    let u: u32 = c as u32;
    let v: u32 = if '0' <= c && c <= '9' {
        u - 48
    } else if 'a' <= c && c <= 'f' {
        u - 87
    } else if 'A' <= c && c <= 'F' {
        u - 55
    } else {
        16
    };
    if v < radix {
        Some(v)
    } else {
        None
    }
}

/// A number never gets smaller when a digit is added.
pub proof fn number_grows(s: Seq<char>, radix: nat)
    requires
        radix >= 2,
        s.len() > 1,
        number(s, radix) is Some,
    ensures
        number(s.drop_last(), radix) is Some,
        number(s.drop_last(), radix)->0 <= number(s, radix)->0,
{
    let n = number(s.drop_last(), radix)->0;
    assert(n * radix >= n) by (nonlinear_arith)
        requires
            radix >= 2,
            n >= 0,
    ;
}

/// Reads the digits of `body` from place `start` on as a number in the given
/// radix.  Nothing where there are no digits, where one of the characters is
/// no digit, or where the number is above the largest code point.
pub fn parse_number(body: &Vec<char>, start: usize, radix: u32) -> (r: Option<u32>)
    requires
        radix == 10 || radix == 16,
        start <= body.len(),
    ensures
        match r {
            Some(n) => number(body@.skip(start as int), radix as nat) == Some(n as nat) && n <= 0x10FFFF,
            None => match number(body@.skip(start as int), radix as nat) {
                Some(n) => n > 0x10FFFF,
                None => true,
            },
        },
{
    let ghost digits = body@.skip(start as int);
    if start == body.len() {
        return None;
    }
    let mut value: u32 = 0;
    let mut i: usize = start;
    while i < body.len()
        invariant
            start <= i <= body.len(),
            start < body.len(),
            radix == 10 || radix == 16,
            digits == body@.skip(start as int),
            value <= 0x10FFFF,
            i > start ==> number(digits.take(i - start), radix as nat) == Some(value as nat),
            i == start ==> value == 0,
        decreases body.len() - i,
    {
        let ghost prefix = digits.take(i + 1 - start);
        proof {
            assert(prefix.drop_last() == digits.take(i - start));
            assert(prefix.last() == body@[i as int]);
        }
        match digit_of(body[i], radix) {
            None => {
                proof {
                    no_number_beyond(digits, (i + 1 - start) as nat, radix as nat);
                }
                return None;
            },
            Some(d) => {
                assert((value as u64) * (radix as u64) <= 0x10FFFF * 16) by (nonlinear_arith)
                    requires
                        value <= 0x10FFFF,
                        radix <= 16,
                ;
                let next: u64 = (value as u64) * (radix as u64) + (d as u64);
                assert(number(prefix, radix as nat) == Some(next as nat)) by {
                    assert(digit_value(prefix.last(), radix as nat) == Some(d as nat));
                    if i == start {
                        assert(prefix.len() == 1);
                        assert(prefix[0] == body@[i as int]);
                        assert(next == d);
                    } else {
                        assert(prefix.len() > 1);
                        assert(number(prefix.drop_last(), radix as nat) == Some(value as nat));
                        assert(next as nat == (value as nat) * (radix as nat) + (d as nat));
                    }
                }
                if next > 0x10FFFF {
                    proof {
                        number_stays_large(digits, (i + 1 - start) as nat, radix as nat, 0x10FFFF);
                    }
                    return None;
                }
                value = next as u32;
            },
        }
        i = i + 1;
    }
    assert(digits.take(digits.len() as int) == digits);
    Some(value)
}

/// Where a front part of `s` writes no number, `s` writes none.
pub proof fn no_number_beyond(s: Seq<char>, k: nat, radix: nat)
    requires
        0 < k <= s.len(),
        number(s.take(k as int), radix) is None,
    ensures
        number(s, radix) is None,
    decreases s.len() - k,
{
    if k < s.len() {
        let longer = s.take(k as int + 1);
        assert(longer.drop_last() == s.take(k as int));
        no_number_beyond(s, k + 1, radix);
    } else {
        assert(s.take(k as int) == s);
    }
}

/// Where a front part of `s` writes a number above `bound`, `s` writes no
/// number or one above `bound`.
pub proof fn number_stays_large(s: Seq<char>, k: nat, radix: nat, bound: nat)
    requires
        radix >= 2,
        0 < k <= s.len(),
        number(s.take(k as int), radix) matches Some(n) && n > bound,
    ensures
        match number(s, radix) {
            Some(n) => n > bound,
            None => true,
        },
    decreases s.len() - k,
{
    if k < s.len() {
        let longer = s.take(k as int + 1);
        assert(longer.drop_last() == s.take(k as int));
        if number(longer, radix) is Some {
            number_grows(longer, radix);
            number_stays_large(s, k + 1, radix, bound);
        } else {
            no_number_beyond(s, k + 1, radix);
        }
    } else {
        assert(s.take(k as int) == s);
    }
}

/// The character that a numeric reference names.  `body` is what stands
/// between `&` and `;`, starting with `#`.
///
/// Fails where the digits write no number or one above the largest code
/// point, and where the number is no character, or none that the version of
/// the document allows.
pub fn numeric_reference(body: &Vec<char>, version11: bool, pos: TextPosition) -> (r: Result<char, Error>)
    requires
        body.len() > 0,
    ensures
        match numeric(body@, version11) {
            Ok(c) => r == Ok::<char, Error>(c),
            Err(message) => r matches Err(e) && e.is_syntax(message, pos),
        },
{
    let ghost digits = body@.skip(1);
    let hex = body.len() > 1 && body[1] == 'x';
    proof {
        if body.len() > 1 {
            assert(digits[0] == body@[1]);
            assert(digits.skip(1) == body@.skip(2));
        }
    }
    let parsed = if hex {
        parse_number(body, 2, 16)
    } else {
        parse_number(body, 1, 10)
    };
    let value: u32 = match parsed {
        Some(v) => v,
        None => {
            let mut shown: Vec<char> = Vec::new();
            let mut i: usize = 1;
            assert(body@.subrange(1, 1) == Seq::<char>::empty());
            while i < body.len()
                invariant
                    1 <= i <= body.len(),
                    shown@ == body@.subrange(1, i as int),
                decreases body.len() - i,
            {
                shown.push(body[i]);
                assert(body@.subrange(1, i + 1) == body@.subrange(1, i as int).push(body@[i as int]));
                i = i + 1;
            }
            assert(body@.subrange(1, body@.len() as int) == body@.skip(1));
            return Err(syntax_error(SyntaxError::InvalidNumericEntity(boxed(&shown)), pos));
        },
    };
    match char_from_u32(value) {
        Some(c) => {
            if is_valid_xml_char(c, version11) {
                Ok(c)
            } else {
                Err(syntax_error(SyntaxError::InvalidCharacterEntity(value), pos))
            }
        },
        None => Err(syntax_error(SyntaxError::InvalidCharacterEntity(value), pos)),
    }
}

/// The place of the entity named `name` in `entities`: the first entry with
/// that name.
pub fn find_entity(entities: &Vec<(String, String)>, name: &Vec<char>) -> (r: Option<usize>)
    ensures
        match r {
            Some(k) => k < entities.len() && entity_at(pairs(entities@), name@) == Some(k as int),
            None => entity_at(pairs(entities@), name@) is None,
        },
{
    let ghost all = pairs(entities@);
    let mut i: usize = 0;
    assert(all.take(0).len() == 0);
    while i < entities.len()
        invariant
            i <= entities.len(),
            all == pairs(entities@),
            entity_at(all.take(i as int), name@) is None,
        decreases entities.len() - i,
    {
        proof {
            let longer = all.take(i + 1);
            assert(longer.drop_last() == all.take(i as int));
            assert(longer.last() == (entities@[i as int].0@, entities@[i as int].1@));
        }
        if chars_are(name, entities[i].0.as_str()) {
            proof {
                entity_found_stays(all, (i + 1) as nat, name@);
            }
            return Some(i);
        }
        i = i + 1;
    }
    assert(all.take(all.len() as int) == all);
    None
}

/// An entity that is found in a front part of a list is found at the same
/// place in the list.
pub proof fn entity_found_stays(entities: Seq<(Seq<char>, Seq<char>)>, k: nat, name: Seq<char>)
    requires
        k <= entities.len(),
        entity_at(entities.take(k as int), name) is Some,
    ensures
        entity_at(entities, name) == entity_at(entities.take(k as int), name),
    decreases entities.len() - k,
{
    if k < entities.len() {
        let longer = entities.take(k as int + 1);
        assert(longer.drop_last() == entities.take(k as int));
        entity_found_stays(entities, k + 1, name);
    } else {
        assert(entities.take(k as int) == entities);
    }
}

/// `s` without the white space at its ends.
pub open spec fn trimmed(s: Seq<char>) -> Seq<char>
    decreases s.len(),
{
    if s.len() == 0 {
        s
    } else if is_whitespace(s[0]) {
        trimmed(s.drop_first())
    } else if is_whitespace(s.last()) {
        trimmed(s.drop_last())
    } else {
        s
    }
}

/// `s` without the white space at its ends.
#[verifier::rlimit(40)]
pub fn trim(s: &Vec<char>) -> (r: String)
    ensures
        r@ == trimmed(s@),
{
    let mut from: usize = 0;
    assert(s@.subrange(0, s@.len() as int) == s@);
    while from < s.len() && is_whitespace_char(s[from])
        invariant
            from <= s.len(),
            trimmed(s@) == trimmed(s@.subrange(from as int, s@.len() as int)),
        decreases s.len() - from,
    {
        assert(s@.subrange(from as int, s@.len() as int)[0] == s@[from as int]);
        assert(s@.subrange(from as int, s@.len() as int).drop_first() == s@.subrange(from + 1, s@.len() as int));
        from = from + 1;
    }
    proof {
        if from < s.len() {
            assert(s@.subrange(from as int, s@.len() as int)[0] == s@[from as int]);
        }
    }
    let mut to: usize = s.len();
    while to > from && is_whitespace_char(s[to - 1])
        invariant
            from <= to <= s.len(),
            from < s.len() ==> !is_whitespace(s@[from as int]),
            trimmed(s@) == trimmed(s@.subrange(from as int, to as int)),
        decreases to,
    {
        assert(s@.subrange(from as int, to as int)[0] == s@[from as int]);
        assert(s@.subrange(from as int, to as int).last() == s@[to - 1]);
        assert(s@.subrange(from as int, to as int).drop_last() == s@.subrange(from as int, to - 1));
        to = to - 1;
    }
    proof {
        let kept = s@.subrange(from as int, to as int);
        if to > from {
            assert(kept[0] == s@[from as int]);
            assert(kept.last() == s@[to - 1]);
            assert(trimmed(kept) == kept);
        } else {
            assert(kept.len() == 0);
        }
    }
    let mut out: Vec<char> = Vec::new();
    let mut i: usize = from;
    while i < to
        invariant
            from <= i <= to <= s.len(),
            out@ == s@.subrange(from as int, i as int),
        decreases to - i,
    {
        out.push(s[i]);
        assert(s@.subrange(from as int, i + 1) == s@.subrange(from as int, i as int).push(s@[i as int]));
        i = i + 1;
    }
    string_from_chars(&out)
}

/// Whether `s` is `xml` in any mix of upper and lower case.
pub fn is_xml_name(s: &Vec<char>) -> (r: bool)
    ensures
        r == (s@.len() == 3 && (s@[0] == 'x' || s@[0] == 'X') && (s@[1] == 'm' || s@[1] == 'M') && (s@[2] == 'l'
            || s@[2] == 'L')),
{
    s.len() == 3 && (s[0] == 'x' || s[0] == 'X') && (s[1] == 'm' || s[1] == 'M') && (s[2] == 'l' || s[2] == 'L')
}

/// The parts of a piece of markup as values.
pub open spec fn data_view(d: MarkupData) -> DataView {
    DataView {
        name: d.name@,
        ref_data: d.ref_data@,
        doctype: d.doctype@,
        doctype_name: d.doctype_name@,
        public_id: crate::reader::events::opt_view(d.public_id),
        system_id: crate::reader::events::opt_view(d.system_id),
        version: match d.version {
            Some(v) => Some(v@),
            None => None,
        },
        encoding: crate::reader::events::opt_view(d.encoding),
        standalone: d.standalone,
        element_name: d.element_name@,
        quote: d.quote,
        attr_name: d.attr_name@,
        attributes: crate::attribute::attribute_views(d.attributes@),
    }
}

/// What a handler gives, as a value.
pub open spec fn polled_step(r: Option<Result<XmlEvent, Error>>) -> Option<Polled> {
    match r {
        Some(x) => Some(polled(x)),
        None => None,
    }
}

/// The views of a sequence of names.
pub open spec fn name_views(names: Seq<OwnedName>) -> Seq<NameView> {
    names.map_values(|n: OwnedName| n@)
}

/// What an event does to the elements that are open and to the namespace
/// scopes, and what it owes to them.
///
/// The start of an element opens it and its scope; the namespace that the
/// event carries is what all scopes bind, seen as one; the name of the
/// element is resolved against it, and so is the name of every attribute.
/// The end of an element closes the element that was opened last, whose name
/// it shares, and its scope.  No other event changes either.
pub open spec fn event_step(
    open_before: Seq<NameView>,
    scopes_before: Seq<Bindings>,
    event: EventView,
    open_after: Seq<NameView>,
    scopes_after: Seq<Bindings>,
) -> bool {
    match event {
        EventView::StartElement { name, attributes, namespace } => {
            &&& open_after == open_before.push(name)
            &&& scopes_after.len() == scopes_before.len() + 1
            &&& scopes_after.drop_last() == scopes_before
            &&& namespace == squashed(scopes_after)
            &&& resolved(name, namespace)
            &&& forall|i: int| 0 <= i < attributes.len() ==> attribute_resolved((#[trigger] attributes[i]).name, namespace)
        },
        EventView::EndElement { name } => {
            &&& open_before.len() > 0
            &&& open_before.last().same(name)
            &&& open_after == open_before.drop_last()
            &&& scopes_before.len() > 0
            &&& scopes_after == scopes_before.drop_last()
        },
        _ => open_after == open_before && scopes_after == scopes_before,
    }
}

/// What handling a token may do to the lexer: nothing but a change of the
/// encoding, or, on the end of a reference, an expansion that uses up part
/// of its budget.
pub open spec fn lexer_moved(before: LexerView, after: LexerView, t: Token, failed: bool) -> bool {
    ||| failed
    ||| after == (LexerView { reader: CharReader { encoding: after.reader.encoding, ..before.reader }, ..before })
    ||| (t == Token::ReferenceEnd && after.budget() < before.budget() && !after.eof_handled)
}

/// The pull parser.
pub struct PullParser {
    pub(crate) config: ParserConfig,
    pub(crate) lexer: Lexer,
    pub(crate) st: State,
    pub(crate) state_after_reference: State,
    pub(crate) buf: Vec<char>,
    pub(crate) entities: Vec<(String, String)>,
    pub(crate) nst: NamespaceStack,
    pub(crate) data: MarkupData,
    pub(crate) final_result: Option<Result<XmlEvent, Error>>,
    /// An event that is reported next: the end of an empty element whose
    /// start has been reported, or a processing instruction that comes first
    /// in a document without declaration.
    pub(crate) next_event: Option<XmlEvent>,
    pub(crate) est: Vec<OwnedName>,
    pub(crate) encountered: Encountered,
    pub(crate) inside_whitespace: bool,
    pub(crate) read_prefix_separator: bool,
    /// The positions at which the events to come start; the first is that
    /// of the event that was given last.
    pub(crate) pos: Vec<TextPosition>,
}

impl PullParser {
    /// Whether a start tag is being read, so that the top namespace frame
    /// belongs to an element that has not been reported yet.
    pub open(crate) spec fn in_opening_tag(&self) -> bool {
        self.st is InsideOpeningTag || (self.st is InsideReference && self.state_after_reference is InsideOpeningTag)
    }

    /// The parts of the parser fit together: there is a namespace frame for
    /// each open element, one below them and one for a start tag that is
    /// being read; an end tag is read only while an element is open; the
    /// lexer reports errors; a parser that has ended has ended with an error,
    /// or with the end of the document and no element open.
    pub open(crate) spec fn wf(&self) -> bool {
        &&& self.nst.wf()
        &&& self.lexer@.strict()
        &&& self.nst@.len() == self.est@.len() + 1 + (if self.next_event matches Some(XmlEvent::EndElement { .. }) {
            1int
        } else {
            0
        }) + (if self.in_opening_tag() { 1int } else { 0 })
        &&& (self.next_event matches Some(e) ==> e is EndElement || e is ProcessingInstruction)
        &&& (self.st is InsideClosingTag ==> self.est@.len() > 0)
        &&& self.pos@.len() > 0
        &&& (self.final_result matches Some(r) ==> r is Err || (r matches Ok(e) && e is EndDocument && self.est@.len() == 0
            && self.next_event is None))
        &&& (self.state_after_reference is OutsideTag || self.state_after_reference is InsideOpeningTag)
    }

    /// The names of the elements that are open, outermost first: those whose
    /// start has been reported and whose end has not.
    pub open(crate) spec fn open_elements(&self) -> Seq<NameView> {
        match self.next_event {
            Some(XmlEvent::EndElement { name }) => name_views(self.est@).push(name@),
            _ => name_views(self.est@),
        }
    }

    /// The namespace scopes of the document so far: one for each open
    /// element, and one below them.
    pub open(crate) spec fn scopes(&self) -> Seq<Bindings> {
        if self.in_opening_tag() {
            self.nst@.drop_last()
        } else {
            self.nst@
        }
    }

    /// The parser as a value.
    pub open(crate) spec fn model(&self) -> ParserView {
        ParserView {
            config: self.config,
            lexer: self.lexer@,
            st: self.st,
            state_after_reference: self.state_after_reference,
            buf: self.buf@,
            entities: pairs(self.entities@),
            frames: self.nst@,
            data: data_view(self.data),
            final_result: self.finished(),
            next_event: match self.next_event {
                Some(e) => Some(e@),
                None => None,
            },
            est: name_views(self.est@),
            encountered: self.encountered,
            inside_whitespace: self.inside_whitespace,
            read_prefix_separator: self.read_prefix_separator,
            pos: self.pos@,
        }
    }

    /// Whether a handler has done what the model says: it gives what the
    /// model gives, and unless that is an error, the parser is afterwards as
    /// the model says.
    pub open(crate) spec fn follows(after: PullParser, r: Option<Result<XmlEvent, Error>>, m: (ParserView, Option<Polled>)) -> bool {
        polled_step(r) == m.1 && (!(r matches Some(Err(_))) ==> after.model() == m.0)
    }

    /// Whether a poll has done what the model says: it gives what the model
    /// gives and leaves the bytes that the model leaves, and unless it has
    /// ended the parser with an error, the parser is afterwards as the model
    /// says.
    pub open(crate) spec fn modeled(
        before: PullParser,
        bytes: Seq<u8>,
        after: PullParser,
        rest: Seq<u8>,
        r: Result<XmlEvent, Error>,
    ) -> bool {
        let m = crate::reader::parser::model::parsed(before.model(), bytes);
        polled(r) == m.2 && rest == m.1 && (!(r is Err && after.finished() is Some) ==> after.model() == m.0)
    }

    /// The state that the parser is in.
    pub open(crate) spec fn state(&self) -> State {
        self.st
    }

    /// The text that the parser has gathered for the piece of the document
    /// that it is reading.
    pub open(crate) spec fn gathered(&self) -> Seq<char> {
        self.buf@
    }

    /// Whether comments are dropped.
    pub open(crate) spec fn drops_comments(&self) -> bool {
        self.config.ignore_comments
    }

    /// The largest length of character data, a comment or an instruction.
    pub open(crate) spec fn data_limit(&self) -> usize {
        self.config.max_data_length
    }

    /// Whether the start of an element has been read.
    pub open(crate) spec fn root_started(&self) -> bool {
        self.encountered == Encountered::Element
    }

    /// What the parser has ended with, if it has ended.
    pub open(crate) spec fn finished(&self) -> Option<Polled> {
        match self.final_result {
            Some(r) => Some(polled(r)),
            None => None,
        }
    }

    /// Whether the end of the source within the document is an error that
    /// passes.
    pub open(crate) spec fn streaming(&self) -> bool {
        self.config.ignore_end_of_stream
    }

    /// Whether the parser is ready for a token: it is well formed, has not
    /// ended, and holds no event that waits to be reported.
    pub open(crate) spec fn ready(&self) -> bool {
        self.wf() && self.next_event is None && self.final_result is None
    }

    /// What handling token `t` with result `r` has done to the parser.
    pub open(crate) spec fn stepped(before: PullParser, after: PullParser, t: Token, r: Option<Result<XmlEvent, Error>>) -> bool {
        &&& after.wf()
        &&& after.final_result == before.final_result
        &&& after.config.ignore_end_of_stream == before.config.ignore_end_of_stream
        &&& lexer_moved(before.lexer@, after.lexer@, t, r matches Some(Err(_)))
        &&& match r {
            None => after.next_event is None && after.open_elements() == before.open_elements() && after.scopes()
                == before.scopes(),
            Some(Ok(ev)) => event_step(
                before.open_elements(),
                before.scopes(),
                ev@,
                after.open_elements(),
                after.scopes(),
            ) && !(ev is EndDocument),
            Some(Err(e)) => after.next_event is None && after.open_elements() == before.open_elements()
                && after.scopes() == before.scopes() && !(e.kind is UnexpectedEof),
        }
    }

    /// Whether this parser, with `left` bytes in its source, is nearer to the
    /// end of its input than `other` with `other_left` bytes: it has fewer
    /// bytes left, or else its lexer is below the other's, or else it holds
    /// no event that waits where the other holds one.
    pub open(crate) spec fn nearer(&self, left: nat, other: &PullParser, other_left: nat) -> bool {
        let a = self.lexer@;
        let b = other.lexer@;
        left < other_left || (left == other_left && (a.below(b) || (a.phase() == b.phase() && a.budget() == b.budget()
            && a.weight() == b.weight() && self.next_event is None && other.next_event is Some)))
    }

    /// A parser at the start of a document.
    pub fn new(config: ParserConfig) -> (r: PullParser)
        ensures
            r.wf(),
            r.finished() is None,
            r.open_elements().len() == 0,
            r.scopes() == seq![NamespaceStack::base_frame()],
            r.streaming() == config.ignore_end_of_stream,
            r.model() == crate::reader::parser::model::fresh(config),
    {
        let lexer = Lexer::new(&config);
        let r = PullParser {
            config,
            lexer,
            st: State::DocumentStart,
            state_after_reference: State::OutsideTag,
            buf: Vec::new(),
            entities: Vec::new(),
            nst: NamespaceStack::default(),
            data: MarkupData {
                name: Vec::new(),
                ref_data: Vec::new(),
                doctype: Vec::new(),
                doctype_name: Vec::new(),
                public_id: None,
                system_id: None,
                version: None,
                encoding: None,
                standalone: None,
                element_name: OwnedName { local_name: String::new(), namespace: None, prefix: None },
                quote: None,
                attr_name: OwnedName { local_name: String::new(), namespace: None, prefix: None },
                attributes: Vec::new(),
            },
            final_result: None,
            next_event: None,
            est: Vec::new(),
            encountered: Encountered::Nothing,
            inside_whitespace: true,
            read_prefix_separator: false,
            pos: first_position(),
        };
        assert(r.open_elements() =~= Seq::empty());
        assert(r.model().entities =~= Seq::empty());
        assert(r.model().est =~= Seq::empty());
        assert(r.model().data.attributes =~= Seq::empty());
        r
    }

    /// There are never more open elements than an index can count, and one.
    pub proof fn open_elements_bound(&self)
        ensures
            self.open_elements().len() <= usize::MAX + 1,
    {
        assert(self.est@.len() == self.est.len());
    }

    /// There is a namespace scope for each open element, and one below them.
    pub proof fn scopes_match_open(&self)
        requires
            self.wf(),
        ensures
            self.scopes().len() == self.open_elements().len() + 1,
    {
    }

    /// Whether the parser is set up for streaming.
    pub fn is_ignoring_end_of_stream(&self) -> (r: bool)
        ensures
            r == self.streaming(),
    {
        self.config.ignore_end_of_stream
    }

    /// The position at which the last event started.
    pub fn position(&self) -> (r: TextPosition)
        requires
            self.wf(),
        ensures
            r == self.model().pos[0],
    {
        self.pos[0]
    }

    /// A syntax error at the position of the token that was read last.
    pub(crate) fn error(&self, e: SyntaxError) -> (r: Result<XmlEvent, Error>)
        ensures
            r is Err,
            r->Err_0.is_syntax(e.text(), self.lexer@.pos),
            !(r->Err_0.kind is UnexpectedEof),
    {
        Err(syntax_error(e, self.lexer.position()))
    }

    /// Whether the document is of version 1.1.
    pub(crate) fn is_version11(&self) -> (r: bool)
        ensures
            r == crate::reader::parser::model::version11(self.model()),
    {
        match &self.data.version {
            Some(XmlVersion::Version11) => true,
            _ => false,
        }
    }

    /// Defines the entities of `entities`, each a name and its replacement
    /// text, in addition to those that are defined already; where a name is
    /// defined twice, the first definition counts.  Fails, and defines
    /// nothing, once the start of an element has been read.
    pub fn add_entities(&mut self, entities: &[(&str, &str)]) -> (r: Result<(), Error>)
        requires
            old(self).wf(),
        ensures
            final(self).wf(),
            final(self).finished() == old(self).finished(),
            final(self).open_elements() == old(self).open_elements(),
            final(self).scopes() == old(self).scopes(),
            final(self).streaming() == old(self).streaming(),
            r is Ok <==> !old(self).root_started(),
            final(self).model() == (ParserView { config: final(self).model().config, ..old(self).model() }),
            crate::reader::parser::model::same_options(final(self).model().config, old(self).model().config),
            pairs(final(self).model().config.extra_entities@) == (if r is Ok {
                pairs(old(self).model().config.extra_entities@) + crate::reader::parser::model::slices(entities@)
            } else {
                pairs(old(self).model().config.extra_entities@)
            }),
    {
        if self.encountered == Encountered::Element {
            return Err(
                Error {
                    pos: self.lexer.position(),
                    kind: ErrorKind::Io(String::from_str("entities cannot be added once an element has started")),
                },
            );
        }
        let ghost before = pairs(self.config.extra_entities@);
        let ghost added = crate::reader::parser::model::slices(entities@);
        let mut i: usize = 0;
        assert(before + added.take(0) =~= before);
        while i < entities.len()
            invariant
                i <= entities.len(),
                self.wf(),
                *self == (PullParser { config: self.config, ..*old(self) }),
                crate::reader::parser::model::same_options(self.config, old(self).config),
                before == pairs(old(self).config.extra_entities@),
                added == crate::reader::parser::model::slices(entities@),
                pairs(self.config.extra_entities@) == before + added.take(i as int),
            decreases entities.len() - i,
        {
            let ghost prev = pairs(self.config.extra_entities@);
            self.config.extra_entities.push((String::from_str(entities[i].0), String::from_str(entities[i].1)));
            proof {
                assert(added[i as int] == (entities@[i as int].0@, entities@[i as int].1@));
                assert(added.take(i + 1) =~= added.take(i as int).push(added[i as int]));
                assert(pairs(self.config.extra_entities@) =~= prev.push(added[i as int]));
                assert(prev.push(added[i as int]) =~= before + added.take(i + 1));
            }
            i = i + 1;
        }
        assert(added.take(added.len() as int) == added);
        Ok(())
    }

    /// Notes that the document has come to `stage`.  Gives the event for the
    /// start of the document where this is the first thing of the document
    /// and no declaration has been read.
    pub(crate) fn set_encountered(&mut self, stage: Encountered) -> (r: Option<Result<XmlEvent, Error>>)
        ensures
            *final(self) == (PullParser { encountered: final(self).encountered, pos: final(self).pos, ..*old(self) }),
            final(self).pos@.len() >= old(self).pos@.len(),
            match r {
                Some(ev) => ev matches Ok(e) && e is StartDocument,
                None => true,
            },
            final(self).model() == crate::reader::parser::model::encountered_step(old(self).model(), stage).0,
            polled_step(r) == crate::reader::parser::model::encountered_step(old(self).model(), stage).1,
    {
        if stage.order() <= self.encountered.order() {
            return None;
        }
        let previous = self.encountered;
        self.encountered = stage;
        if previous == Encountered::Nothing {
            self.pos.push(self.lexer.position());
            Some(
                Ok(
                    XmlEvent::StartDocument {
                        version: XmlVersion::Version10,
                        encoding: String::from_str(self.lexer.encoding().as_str()),
                        standalone: None,
                    },
                ),
            )
        } else {
            None
        }
    }

    /// Reads the next event from `src`.
    ///
    /// Once the end of the document or an error has been given, every call
    /// gives it again.  In streaming mode an error of the kind
    /// `UnexpectedEof` is given where the source runs dry before the document
    /// has ended; it passes: the next call reads on.
    pub fn next(&mut self, src: &mut ByteSource) -> (r: Result<XmlEvent, Error>)
        requires
            old(self).wf(),
            old(src).wf(),
        ensures
            final(self).wf(),
            final(src).wf(),
            final(self).streaming() == old(self).streaming(),
            match old(self).finished() {
                Some(v) => polled(r) == v && final(self).finished() == Some(v) && final(src)@ == old(src)@
                    && final(self).open_elements() == old(self).open_elements() && final(self).scopes() == old(self).scopes(),
                None => {
                    &&& final(self).finished() == (if (r matches Ok(e) && e is EndDocument) || (r matches Err(e) && !(
                    old(self).streaming() && e.kind is UnexpectedEof)) {
                        Some(polled(r))
                    } else {
                        None
                    })
                    &&& match r {
                        Ok(ev) => event_step(
                            old(self).open_elements(),
                            old(self).scopes(),
                            ev@,
                            final(self).open_elements(),
                            final(self).scopes(),
                        ) && (if ev is EndDocument {
                            old(self).open_elements().len() == 0
                        } else {
                            final(self).nearer(final(src)@.len(), old(self), old(src)@.len())
                        }),
                        Err(_) => final(self).open_elements() == old(self).open_elements() && final(self).scopes()
                            == old(self).scopes(),
                    }
                },
            },
            Self::modeled(*old(self), old(src)@, *final(self), final(src)@, r),
    {
        if let Some(ev) = &self.final_result {
            return crate::reader::events::clone_result(ev);
        }
        if self.next_event.is_some() {
            let event = self.next_event.take().unwrap();
            if let XmlEvent::EndElement { name } = &event {
                let _ = self.nst.try_pop();
                assert(self.open_elements() =~= old(self).open_elements().drop_last());
                assert(old(self).open_elements().last() == name@);
            }
            return Ok(event);
        }
        self.pull(src)
    }

    /// Reads tokens and handles them until there is an event or an error.
    fn pull(&mut self, src: &mut ByteSource) -> (r: Result<XmlEvent, Error>)
        requires
            old(self).ready(),
            old(self).final_result is None,
            old(src).wf(),
        ensures
            final(self).wf(),
            final(src).wf(),
            final(self).streaming() == old(self).streaming(),
            final(self).finished() == (if (r matches Ok(e) && e is EndDocument) || (r matches Err(e) && !(old(self).streaming() && e.kind is UnexpectedEof)) {
                Some(polled(r))
            } else {
                None
            }),
            match r {
                Ok(ev) => event_step(
                    old(self).open_elements(),
                    old(self).scopes(),
                    ev@,
                    final(self).open_elements(),
                    final(self).scopes(),
                ) && (if ev is EndDocument {
                    old(self).open_elements().len() == 0
                } else {
                    final(self).nearer(final(src)@.len(), old(self), old(src)@.len())
                }),
                Err(_) => final(self).open_elements() == old(self).open_elements() && final(self).scopes() == old(self).scopes(),
            },
            polled(r) == crate::reader::parser::model::pulled(old(self).model(), old(src)@).2,
            final(src)@ == crate::reader::parser::model::pulled(old(self).model(), old(src)@).1,
            !(r is Err && final(self).finished() is Some) ==> final(self).model()
                == crate::reader::parser::model::pulled(old(self).model(), old(src)@).0,
    {
        let ghost goal = crate::reader::parser::model::pulled(old(self).model(), old(src)@);
        loop
            invariant
                self.ready(),
                src.wf(),
                self.final_result is None,
                old(self).final_result is None,
                old(self).next_event is None,
                self.config.ignore_end_of_stream == old(self).config.ignore_end_of_stream,
                self.open_elements() == old(self).open_elements(),
                self.scopes() == old(self).scopes(),
                src@.len() <= old(src)@.len(),
                src@.len() == old(src)@.len() ==> self.lexer@.below(old(self).lexer@) || (self.lexer@.phase() == old(self).lexer@.phase() && self.lexer@.budget() == old(self).lexer@.budget() && self.lexer@.weight() == old(self).lexer@.weight()),
                goal == crate::reader::parser::model::pulled(old(self).model(), old(src)@),
                crate::reader::parser::model::pulled(self.model(), src@) == goal,
            decreases src@.len(), self.lexer@.phase(), self.lexer@.budget(), self.lexer@.weight(),
        {
            match self.pull_once(src) {
                Some(r) => {
                    return r;
                },
                None => {},
            }
        }
    }

    /// Reads one token and handles it.
    fn pull_once(&mut self, src: &mut ByteSource) -> (r: Option<Result<XmlEvent, Error>>)
        requires
            old(self).ready(),
            old(self).final_result is None,
            old(src).wf(),
        ensures
            final(self).wf(),
            final(src).wf(),
            final(self).streaming() == old(self).streaming(),
            final(src)@.len() <= old(src)@.len(),
            match r {
                None => {
                    &&& final(self).next_event is None
                    &&& final(self).final_result is None
                    &&& final(self).open_elements() == old(self).open_elements()
                    &&& final(self).scopes() == old(self).scopes()
                    &&& (final(src)@.len() < old(src)@.len() || final(self).lexer@.below(old(self).lexer@))
                },
                Some(x) => {
                    &&& final(self).finished() == (if (x matches Ok(e) && e is EndDocument) || (x matches Err(e) && !(
                    old(self).streaming() && e.kind is UnexpectedEof)) {
                        Some(polled(x))
                    } else {
                        None
                    })
                    &&& match x {
                        Ok(ev) => event_step(
                            old(self).open_elements(),
                            old(self).scopes(),
                            ev@,
                            final(self).open_elements(),
                            final(self).scopes(),
                        ) && (if ev is EndDocument {
                            old(self).open_elements().len() == 0
                        } else {
                            final(src)@.len() < old(src)@.len() || final(self).lexer@.below(old(self).lexer@)
                        }),
                        Err(_) => final(self).open_elements() == old(self).open_elements() && final(self).scopes()
                            == old(self).scopes(),
                    }
                },
            },
            polled_step(r) == crate::reader::parser::model::pulled_once(old(self).model(), old(src)@).2,
            final(src)@ == crate::reader::parser::model::pulled_once(old(self).model(), old(src)@).1,
            !(r matches Some(Err(_)) && final(self).finished() is Some) ==> final(self).model()
                == crate::reader::parser::model::pulled_once(old(self).model(), old(src)@).0,
    {
        proof {
            reveal(crate::reader::parser::model::pulled_once);
            crate::reader::lexer::next_token_progress(self.lexer@, src@);
        }
        match self.lexer.next_token(src) {
            Ok(Token::Eof) => {
                advance_positions(&mut self.pos, self.lexer.position());
                Some(self.handle_eof())
            },
            Ok(token) => {
                match self.dispatch_token(token) {
                    None => None,
                    Some(Ok(event)) => {
                        advance_positions(&mut self.pos, self.lexer.position());
                        Some(Ok(event))
                    },
                    Some(Err(e)) => {
                        advance_positions(&mut self.pos, self.lexer.position());
                        self.final_result = Some(Err(e.clone()));
                        Some(Err(e))
                    },
                }
            },
            Err(e) => {
                if self.config.ignore_end_of_stream && (self.lexer.is_eof_handled() || self.is_eof_error(&e)) {
                    self.lexer.reset_eof_handled();
                    return Some(Err(Error { pos: e.pos, kind: ErrorKind::UnexpectedEof }));
                }
                self.final_result = Some(Err(e.clone()));
                Some(Err(e))
            },
        }
    }

    /// Whether an error says that the input ended.
    fn is_eof_error(&self, e: &Error) -> (r: bool)
        ensures
            r == (e.kind is UnexpectedEof),
    {
        match e.kind {
            ErrorKind::UnexpectedEof => true,
            _ => false,
        }
    }

    /// What the end of the input means for the document.
    ///
    /// The document ends well where its root element has been closed.  Else
    /// the end is an error: in streaming mode one that passes, otherwise one
    /// that says what is missing.
    fn handle_eof(&mut self) -> (r: Result<XmlEvent, Error>)
        requires
            old(self).ready(),
            old(self).final_result is None,
        ensures
            final(self).wf(),
            final(self).next_event is None,
            final(self).config.ignore_end_of_stream == old(self).config.ignore_end_of_stream,
            final(self).open_elements() == old(self).open_elements(),
            final(self).scopes() == old(self).scopes(),
            r matches Ok(e) ==> e is EndDocument && old(self).open_elements().len() == 0,
            final(self).finished() == (if r is Ok || (r matches Err(e) && !(old(self).streaming() && e.kind
                is UnexpectedEof)) {
                Some(polled(r))
            } else {
                None
            }),
            final(self).model() == crate::reader::parser::model::at_eof(old(self).model()).0,
            polled(r) == crate::reader::parser::model::at_eof(old(self).model()).1,
    {
        proof {
            reveal(crate::reader::parser::model::at_eof);
        }
        let clean = self.est.len() == 0 && self.encountered == Encountered::Element && self.st == State::OutsideTag;
        if clean {
            self.final_result = Some(Ok(XmlEvent::EndDocument));
            return Ok(XmlEvent::EndDocument);
        }
        if self.config.ignore_end_of_stream {
            self.lexer.reset_eof_handled();
            return Err(Error { pos: self.lexer.position(), kind: ErrorKind::UnexpectedEof });
        }
        let problem = if self.est.len() > 0 {
            SyntaxError::UnbalancedRootElement
        } else if self.encountered != Encountered::Element {
            SyntaxError::NoRootElement
        } else {
            SyntaxError::UnexpectedEof
        };
        let e = syntax_error(problem, self.lexer.position());
        self.final_result = Some(Err(e.clone()));
        Err(e)
    }

    /// Hands a token to the handler of the state that the parser is in.
    fn dispatch_token(&mut self, t: Token) -> (r: Option<Result<XmlEvent, Error>>)
        requires
            old(self).ready(),
        ensures
            Self::stepped(*old(self), *final(self), t, r),
            Self::follows(*final(self), r, crate::reader::parser::model::handled(old(self).model(), t)),
    {
        proof {
            reveal(crate::reader::parser::model::handled);
        }
        match self.st {
            State::OutsideTag => self.outside_tag(t),
            State::InsideOpeningTag(s) => self.inside_opening_tag(t, s),
            State::InsideClosingTag(s) => self.inside_closing_tag_name(t, s),
            State::InsideReference => self.inside_reference(t),
            State::InsideComment => self.inside_comment(t),
            State::InsideCData => self.inside_cdata(t),
            State::InsideProcessingInstruction(s) => self.inside_processing_instruction(t, s),
            State::InsideDoctype(s) => self.inside_doctype(t, s),
            State::InsideDeclaration(s) => self.inside_declaration(t, s),
            State::DocumentStart => self.document_start(t),
        }
    }
}

/// A name with its namespace taken from what its prefix is bound to in
/// `nst`, where the prefix is bound.  A prefix that is bound to the empty
/// URI is not bound; a name without prefix takes the default namespace where
/// `use_default` is set, and no namespace otherwise.
pub fn resolve_name(name: &OwnedName, nst: &NamespaceStack, use_default: bool) -> (r: Option<OwnedName>)
    ensures
        match resolved_name(name@, nst@, use_default) {
            Some(n) => r matches Some(m) && m@ == n,
            None => r is None,
        },
{
    let borrowed = name.borrow();
    let namespace: Option<String> = if borrowed.prefix.is_some() || use_default {
        match nst.get(borrowed.prefix_repr()) {
            Some(uri) => {
                if uri.unicode_len() == 0 {
                    if borrowed.prefix.is_some() {
                        return None;
                    }
                    None
                } else {
                    Some(String::from_str(uri))
                }
            },
            None => {
                return None;
            },
        }
    } else {
        None
    };
    Some(
        OwnedName {
            local_name: name.local_name.clone(),
            namespace,
            prefix: crate::reader::events::clone_opt(&name.prefix),
        },
    )
}

/// Whether an attribute of the same local name in the same namespace as
/// `name` is among `attributes`.
pub fn has_same_attribute(attributes: &Vec<OwnedAttribute>, name: &OwnedName) -> (r: bool)
    ensures
        r == exists|i: int|
            0 <= i < crate::attribute::attribute_views(attributes@).len() && (#[trigger] crate::attribute::attribute_views(
                attributes@,
            )[i]).name.same(name@),
{
    let ghost views = crate::attribute::attribute_views(attributes@);
    let mut i: usize = 0;
    while i < attributes.len()
        invariant
            i <= attributes.len(),
            views == crate::attribute::attribute_views(attributes@),
            forall|j: int| 0 <= j < i ==> !(#[trigger] views[j]).name.same(name@),
        decreases attributes.len() - i,
    {
        assert(views[i as int] == attributes@[i as int]@);
        if attributes[i].name == *name {
            return true;
        }
        i = i + 1;
    }
    false
}

/// An error among the first attributes of an element is the error of all its
/// attributes.
pub proof fn attribute_error_stays(attributes: Seq<crate::attribute::AttributeView>, k: nat, frames: Seq<Bindings>)
    requires
        k <= attributes.len(),
        crate::reader::parser::model::resolved_attributes(attributes.take(k as int), frames) is Err,
    ensures
        crate::reader::parser::model::resolved_attributes(attributes, frames)
            == crate::reader::parser::model::resolved_attributes(attributes.take(k as int), frames),
    decreases attributes.len() - k,
{
    if k < attributes.len() {
        let longer = attributes.take(k as int + 1);
        assert(longer.drop_last() == attributes.take(k as int));
        attribute_error_stays(attributes, k + 1, frames);
    } else {
        assert(attributes.take(k as int) == attributes);
    }
}

impl PullParser {
    /// Ends a start tag: resolves the names of the element and of its
    /// attributes against the namespaces in scope and gives the start of the
    /// element.  For an empty element the end of the element is reported
    /// next.
    ///
    /// Fails where a prefix is not bound, or where two attributes have the
    /// same local name in the same namespace.
    pub(crate) fn emit_start_element(&mut self, t: Token, emit_end_element: bool) -> (r: Option<
        Result<XmlEvent, Error>,
    >)
        requires
            old(self).ready(),
            old(self).st is InsideOpeningTag,
        ensures
            r is Some,
            Self::stepped(*old(self), *final(self), t, r),
            Self::follows(*final(self), r, crate::reader::parser::model::start_element(old(self).model(), emit_end_element)),
            r matches Some(Ok(e)) ==> e is StartElement,
    {
        let written = take_name(&mut self.data.element_name);
        let name = match resolve_name(&written, &self.nst, true) {
            Some(n) => n,
            None => {
                return Some(self.error(SyntaxError::UnboundElementPrefix(Box::new(written.to_string()))));
            },
        };
        let mut taken: Vec<OwnedAttribute> = Vec::new();
        core::mem::swap(&mut self.data.attributes, &mut taken);
        let mut attributes: Vec<OwnedAttribute> = Vec::new();
        let namespace = self.nst.squash();
        let ghost all = crate::attribute::attribute_views(taken@);
        let ghost frames = self.nst@;
        let mut i: usize = 0;
        proof {
            assert(all.take(0) == Seq::<crate::attribute::AttributeView>::empty());
            assert(crate::attribute::attribute_views(attributes@) =~= Seq::<crate::attribute::AttributeView>::empty());
            assert(crate::attribute::attribute_views(self.data.attributes@) =~= Seq::<
                crate::attribute::AttributeView,
            >::empty());
        }
        while i < taken.len()
            invariant
                i <= taken.len(),
                old(self).ready(),
                old(self).st is InsideOpeningTag,
                *self == (PullParser { data: self.data, ..*old(self) }),
                self.data == (MarkupData { element_name: self.data.element_name, attributes: self.data.attributes, ..old(self).data }),
                self.data.element_name@ == crate::reader::parser::model::no_name(),
                crate::attribute::attribute_views(self.data.attributes@) == Seq::<crate::attribute::AttributeView>::empty(),
                all == crate::attribute::attribute_views(taken@),
                all == crate::attribute::attribute_views(old(self).data.attributes@),
                frames == self.nst@,
                name@ == crate::reader::parser::model::resolved_name(old(self).data.element_name@, frames, true)->0,
                crate::reader::parser::model::resolved_name(old(self).data.element_name@, frames, true) is Some,
                namespace@ == squashed(self.nst@),
                forall|prefix: Seq<char>| bound(namespace@, prefix) == lookup(self.nst@, prefix),
                crate::reader::parser::model::resolved_attributes(all.take(i as int), frames) == Ok::<
                    Seq<crate::attribute::AttributeView>,
                    Seq<char>,
                >(crate::attribute::attribute_views(attributes@)),
                forall|j: int|
                    0 <= j < attributes@.len() ==> attribute_resolved((#[trigger] attributes@[j])@.name, namespace@),
            decreases taken.len() - i,
        {
            proof {
                let longer = all.take(i + 1);
                assert(longer.drop_last() == all.take(i as int));
                assert(longer.last() == taken@[i as int]@);
            }
            let resolved_name = match resolve_name(&taken[i].name, &self.nst, false) {
                Some(n) => n,
                None => {
                    proof {
                        attribute_error_stays(all, (i + 1) as nat, frames);
                    }
                    return Some(self.error(SyntaxError::UnboundAttribute(Box::new(taken[i].name.to_string()))));
                },
            };
            if has_same_attribute(&attributes, &resolved_name) {
                proof {
                    attribute_error_stays(all, (i + 1) as nat, frames);
                }
                return Some(self.error(SyntaxError::RedefinedAttribute(Box::new(resolved_name.to_string()))));
            }
            let ghost before = crate::attribute::attribute_views(attributes@);
            attributes.push(OwnedAttribute { name: resolved_name, value: taken[i].value.clone() });
            proof {
                assert(crate::attribute::attribute_views(attributes@) =~= before.push(
                    crate::attribute::AttributeView { name: resolved_name@, value: taken@[i as int].value@ },
                ));
            }
            i = i + 1;
        }
        proof {
            assert(all.take(all.len() as int) == all);
        }
        if emit_end_element {
            self.next_event = Some(XmlEvent::EndElement { name: name.clone() });
        } else {
            self.est.push(name.clone());
            assert(name_views(self.est@) =~= name_views(old(self).est@).push(name@));
        }
        self.st = State::OutsideTag;
        let event = XmlEvent::StartElement { name, attributes, namespace };
        proof {
            assert(self.open_elements() =~= old(self).open_elements().push(name@));
            let views = crate::attribute::attribute_views(attributes@);
            assert forall|j: int| 0 <= j < views.len() implies attribute_resolved(
                (#[trigger] views[j]).name,
                namespace@,
            ) by {
                assert(views[j] == attributes@[j]@);
            }
        }
        Some(Ok(event))
    }

    /// Ends an end tag: gives the end of the element, and closes its scope.
    ///
    /// Fails where the prefix of the name is not bound, or where the name is
    /// not the name of the element that is open.
    pub(crate) fn emit_end_element(&mut self, t: Token) -> (r: Option<Result<XmlEvent, Error>>)
        requires
            old(self).ready(),
            old(self).st is InsideClosingTag,
        ensures
            r is Some,
            Self::stepped(*old(self), *final(self), t, r),
            Self::follows(*final(self), r, crate::reader::parser::model::end_element(old(self).model())),
            r matches Some(Ok(e)) ==> e is EndElement,
    {
        let written = take_name(&mut self.data.element_name);
        let name = match resolve_name(&written, &self.nst, true) {
            Some(n) => n,
            None => {
                return Some(self.error(SyntaxError::UnboundElementPrefix(Box::new(written.to_string()))));
            },
        };
        let n = self.est.len();
        if self.est[n - 1] == name {
            let _ = self.est.pop();
            let _ = self.nst.try_pop();
            self.st = State::OutsideTag;
            proof {
                assert(self.open_elements() =~= old(self).open_elements().drop_last());
                assert(old(self).open_elements().last() == old(self).est@[n - 1]@);
            }
            Some(Ok(XmlEvent::EndElement { name }))
        } else {
            let mut message: Vec<char> = Vec::new();
            push_str_chars(&mut message, "got ");
            push_str_chars(&mut message, name.to_string().as_str());
            push_str_chars(&mut message, " expected ");
            push_str_chars(&mut message, self.est[n - 1].to_string().as_str());
            Some(self.error(SyntaxError::UnexpectedClosingTag(boxed(&message))))
        }
    }
}

} // verus!
