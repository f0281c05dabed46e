//! The parser as a function: what each token does to the state of the
//! parser, and what one poll gives.
//!
//! The handlers of the parser are held to the functions here.  They speak
//! of the parser as a value, `ParserView`, and of what it gives as a value,
//! `Polled`.

use vstd::prelude::*;
use crate::attribute::AttributeView;
use crate::common::{is_name, is_name_start, is_whitespace, is_xml10, is_xml11, is_xml11_not_restricted, TextPosition, VersionView, XmlVersion};
use crate::name::{parsed_name, NameView};
use crate::namespace::{bound, lookup, squashed, Bindings, NS_NO_PREFIX, NS_XMLNS_PREFIX, NS_XMLNS_URI, NS_XML_PREFIX, NS_XML_URI};
use crate::reader::config::ParserConfig;
use crate::reader::error::{KindView, SyntaxError};
use crate::reader::events::{EventView, Polled};
use crate::reader::lexer::{reparsed, LexerView, Scan, Token};
use crate::reader::parser::{
    referenced_code, trimmed, ClosingTagSubstate, DeclarationSubstate, DoctypeSubstate, Encountered,
    OpeningTagSubstate, ProcessingInstructionSubstate, QualifiedNameTarget, QuoteToken, State,
};
use crate::text::scalar_char;
use crate::util::{CharReader, Encoding};

verus! {

/// The parts of the piece of markup that is being read, as values.
pub ghost struct DataView {
    pub name: Seq<char>,
    pub ref_data: Seq<char>,
    pub doctype: Seq<char>,
    pub doctype_name: Seq<char>,
    pub public_id: Option<Seq<char>>,
    pub system_id: Option<Seq<char>>,
    pub version: Option<VersionView>,
    pub encoding: Option<Seq<char>>,
    pub standalone: Option<bool>,
    pub element_name: NameView,
    pub quote: Option<QuoteToken>,
    pub attr_name: NameView,
    pub attributes: Seq<AttributeView>,
}

/// The parser as a value.
pub ghost struct ParserView {
    pub config: ParserConfig,
    pub lexer: LexerView,
    pub st: State,
    pub state_after_reference: State,
    pub buf: Seq<char>,
    pub entities: Seq<(Seq<char>, Seq<char>)>,
    pub frames: Seq<Bindings>,
    pub data: DataView,
    pub final_result: Option<Polled>,
    pub next_event: Option<EventView>,
    pub est: Seq<NameView>,
    pub encountered: Encountered,
    pub inside_whitespace: bool,
    pub read_prefix_separator: bool,
    pub pos: Seq<TextPosition>,
}

/// The parser at the start of a document.
pub open spec fn fresh(config: ParserConfig) -> ParserView {
    ParserView {
        config,
        lexer: crate::reader::lexer::initial(config.max_entity_expansion_depth, config.max_entity_expansion_length),
        st: State::DocumentStart,
        state_after_reference: State::OutsideTag,
        buf: Seq::empty(),
        entities: Seq::empty(),
        frames: seq![crate::namespace::NamespaceStack::base_frame()],
        data: DataView {
            name: Seq::empty(),
            ref_data: Seq::empty(),
            doctype: Seq::empty(),
            doctype_name: Seq::empty(),
            public_id: None,
            system_id: None,
            version: None,
            encoding: None,
            standalone: None,
            element_name: no_name(),
            quote: None,
            attr_name: no_name(),
            attributes: Seq::empty(),
        },
        final_result: None,
        next_event: None,
        est: Seq::empty(),
        encountered: Encountered::Nothing,
        inside_whitespace: true,
        read_prefix_separator: false,
        pos: seq![TextPosition { row: 0, column: 0 }],
    }
}

/// Whether two sets of options differ at most in the entities that they
/// define.
pub open spec fn same_options(a: ParserConfig, b: ParserConfig) -> bool {
    &&& a.trim_whitespace == b.trim_whitespace
    &&& a.whitespace_to_characters == b.whitespace_to_characters
    &&& a.cdata_to_characters == b.cdata_to_characters
    &&& a.ignore_comments == b.ignore_comments
    &&& a.coalesce_characters == b.coalesce_characters
    &&& a.ignore_root_level_whitespace == b.ignore_root_level_whitespace
    &&& a.ignore_end_of_stream == b.ignore_end_of_stream
    &&& a.allow_any_minor_version == b.allow_any_minor_version
    &&& a.allow_multiple_root_elements == b.allow_multiple_root_elements
    &&& a.max_entity_expansion_depth == b.max_entity_expansion_depth
    &&& a.max_entity_expansion_length == b.max_entity_expansion_length
    &&& a.max_name_length == b.max_name_length
    &&& a.max_attributes == b.max_attributes
    &&& a.max_attribute_length == b.max_attribute_length
    &&& a.max_data_length == b.max_data_length
}

/// A list of pairs of string slices as values.
pub open spec fn slices(entries: Seq<(&str, &str)>) -> Seq<(Seq<char>, Seq<char>)> {
    entries.map_values(|e: (&str, &str)| (e.0@, e.1@))
}

/// The positions of the events to come, after one event has been given: the
/// first is dropped; where it is the only one, its place is taken by the
/// position of the last token.
pub open spec fn advanced_positions(pos: Seq<TextPosition>, now: TextPosition) -> Seq<TextPosition> {
    if pos.len() > 1 {
        pos.drop_first()
    } else if pos.len() == 1 {
        seq![now]
    } else {
        pos
    }
}

/// The parser after it has given an event.
pub open spec fn advanced(v: ParserView) -> ParserView {
    ParserView { pos: advanced_positions(v.pos, v.lexer.pos), ..v }
}

/// The name that stands for no name.
pub open spec fn no_name() -> NameView {
    NameView { local_name: Seq::empty(), namespace: None, prefix: None }
}

/// A list of pairs of strings as values.
pub open spec fn pairs(entries: Seq<(String, String)>) -> Seq<(Seq<char>, Seq<char>)> {
    entries.map_values(|e: (String, String)| (e.0@, e.1@))
}

/// A syntax error with the given message at the position of the token that
/// the parser is handling.  The state of the parser after an error is left
/// open.
pub open spec fn fails(v: ParserView, message: Seq<char>) -> (ParserView, Option<Polled>) {
    (v, Some(Polled::Failure(v.lexer.pos, KindView::Syntax(message))))
}

/// The parser in state `st`, with nothing to report.
pub open spec fn goes(v: ParserView, st: State) -> (ParserView, Option<Polled>) {
    (ParserView { st, ..v }, None)
}

/// Whether the document is of version 1.1.
pub open spec fn version11(v: ParserView) -> bool {
    v.data.version == Some(VersionView::Version11)
}

/// Whether `c` is allowed in the document.
pub open spec fn valid_char(v: ParserView, c: char) -> bool {
    if version11(v) {
        is_xml11(c)
    } else {
        is_xml10(c)
    }
}

/// Whether `c` is allowed in the document without a character reference.
pub open spec fn valid_char_not_restricted(v: ParserView, c: char) -> bool {
    if version11(v) {
        is_xml11_not_restricted(c)
    } else {
        is_xml10(c)
    }
}

/// Whether a token is a character of white space.
pub open spec fn is_space(t: Token) -> bool {
    t matches Token::Character(c) && is_whitespace(c)
}

/// What reading one token of a qualified name comes to.
pub ghost enum NameStep {
    /// The name goes on: the name so far, and whether it holds a colon.
    More(Seq<char>, bool),
    /// The name is complete.
    Name(NameView),
    /// The name cannot be read; the message says why.
    Failed(Seq<char>),
}

/// Reading one token of a qualified name, of which `buf` has been read.
///
/// A name character is added to the name, a colon only once and not at the
/// start.  A token that may follow a name of this kind ends it; any other
/// token is an error, and so is a name that is longer than `max` and a name
/// that is no qualified name.
pub open spec fn name_step(buf: Seq<char>, seen_colon: bool, t: Token, target: QualifiedNameTarget, max: usize) -> NameStep {
    let seen = if buf.len() <= 1 { false } else { seen_colon };
    let ends = match t {
        Token::Character(c) => is_whitespace(c),
        Token::EqualsSign => target == QualifiedNameTarget::AttributeNameTarget,
        Token::EmptyTagEnd => target == QualifiedNameTarget::OpeningTagNameTarget,
        Token::TagEnd => target == QualifiedNameTarget::OpeningTagNameTarget || target
            == QualifiedNameTarget::ClosingTagNameTarget,
        _ => false,
    };
    if t == Token::Character(':') && buf.len() > 0 && !seen {
        NameStep::More(buf.push(':'), true)
    } else if t matches Token::Character(c) && c != ':' && ((buf.len() == 0 && is_name_start(c)) || (buf.len() > 0
        && is_name(c))) {
        if buf.len() > max {
            NameStep::Failed(SyntaxError::ExceededConfiguredLimit.text())
        } else {
            NameStep::More(buf.push(t->Character_0), seen)
        }
    } else if !ends {
        NameStep::Failed(SyntaxError::UnexpectedQualifiedName(t).text())
    } else {
        match parsed_name(buf) {
            Some(n) => NameStep::Name(n),
            None => NameStep::Failed("Qualified name is invalid: "@ + buf),
        }
    }
}

/// What reading one token of a quoted value comes to.
pub ghost enum ValueStep {
    /// The value goes on: the value so far, and the quote that opened it.
    More(Seq<char>, Option<QuoteToken>),
    /// A reference starts.
    Reference,
    /// The value is complete.
    Value(Seq<char>),
    /// The value cannot be read; the message says why.
    Failed(Seq<char>),
}

/// The quote that a token is.
pub open spec fn quote_token(t: Token) -> Option<QuoteToken> {
    match t {
        Token::SingleQuote => Some(QuoteToken::SingleQuoteToken),
        Token::DoubleQuote => Some(QuoteToken::DoubleQuoteToken),
        _ => None,
    }
}

/// Reading one token of a quoted value, of which `buf` has been read.
///
/// White space before the opening quote is skipped.  Between the quotes
/// every token is part of the value but the closing quote, which ends it,
/// `&`, which starts a reference, `<` and a character that the document
/// does not allow.  A value that is longer than `max` is an error.
pub open spec fn value_step(buf: Seq<char>, quote: Option<QuoteToken>, t: Token, max: usize, version11: bool) -> ValueStep {
    let valid = t matches Token::Character(c) ==> (if version11 { is_xml11_not_restricted(c) } else { is_xml10(c) });
    if quote is None && is_space(t) {
        ValueStep::More(buf, quote)
    } else if !valid {
        ValueStep::Failed(SyntaxError::InvalidCharacterEntity(t->Character_0 as u32).text())
    } else if quote_token(t) is Some && quote is None {
        ValueStep::More(buf, quote_token(t))
    } else if quote_token(t) is Some && quote == quote_token(t) {
        ValueStep::Value(buf)
    } else if t == Token::ReferenceStart && quote is Some {
        ValueStep::Reference
    } else if t == Token::OpeningTagStart {
        ValueStep::Failed(SyntaxError::UnexpectedOpeningTag.text())
    } else if quote is Some {
        if buf.len() > max {
            ValueStep::Failed(SyntaxError::ExceededConfiguredLimit.text())
        } else {
            ValueStep::More(buf + t.data_text(), quote)
        }
    } else {
        ValueStep::Failed(SyntaxError::UnexpectedToken(t).text())
    }
}

/// The event for text that has been gathered, if there is any and it is not
/// dropped.
///
/// Text that is all white space is dropped where text is trimmed, is white
/// space unless white space counts as characters, and is characters
/// otherwise; other text is characters, trimmed where text is trimmed.
pub open spec fn flushed(buf: Seq<char>, inside_whitespace: bool, config: ParserConfig) -> Option<EventView> {
    if buf.len() == 0 {
        None
    } else if inside_whitespace && config.trim_whitespace {
        None
    } else if inside_whitespace && !config.whitespace_to_characters {
        Some(EventView::Whitespace(buf))
    } else if config.trim_whitespace {
        Some(EventView::Characters(trimmed(buf)))
    } else {
        Some(EventView::Characters(buf))
    }
}

/// The character that a numeric reference names, or the message of the
/// error.  `body` is what stands between `&` and `;`, starting with `#`.
pub open spec fn numeric(body: Seq<char>, version11: bool) -> Result<char, Seq<char>> {
    match referenced_code(body.skip(1)) {
        Some(code) => if code <= 0x10FFFF {
            match scalar_char(code as u32) {
                Some(c) => if (if version11 { is_xml11(c) } else { is_xml10(c) }) {
                    Ok(c)
                } else {
                    Err(SyntaxError::InvalidCharacterEntity(code as u32).text())
                },
                None => Err(SyntaxError::InvalidCharacterEntity(code as u32).text()),
            }
        } else {
            Err("Invalid numeric entity: "@ + body.skip(1))
        },
        None => Err("Invalid numeric entity: "@ + body.skip(1)),
    }
}

/// The place of the first entity named `name`.
pub open spec fn entity_at(entities: Seq<(Seq<char>, Seq<char>)>, name: Seq<char>) -> Option<int>
    decreases entities.len(),
{
    if entities.len() == 0 {
        None
    } else {
        match entity_at(entities.drop_last(), name) {
            Some(k) => Some(k),
            None => if entities.last().0 == name {
                Some(entities.len() - 1)
            } else {
                None
            },
        }
    }
}

/// `entities` with an entity of the given name and value added, unless one
/// of that name is there already.
pub open spec fn defined(entities: Seq<(Seq<char>, Seq<char>)>, name: Seq<char>, value: Seq<char>) -> Seq<
    (Seq<char>, Seq<char>),
> {
    if entity_at(entities, name) is None {
        entities.push((name, value))
    } else {
        entities
    }
}

/// A name with its namespace taken from what its prefix is bound to in
/// `frames`; nothing where the prefix is not bound.  A prefix that is bound
/// to the empty URI is not bound; a name without prefix takes the default
/// namespace where `use_default` is set, and no namespace otherwise.
pub open spec fn resolved_name(name: NameView, frames: Seq<Bindings>, use_default: bool) -> Option<NameView> {
    if name.prefix is Some || use_default {
        match lookup(frames, name.prefix_repr()) {
            Some(uri) => if uri.len() == 0 {
                if name.prefix is Some {
                    None
                } else {
                    Some(NameView { namespace: None, ..name })
                }
            } else {
                Some(NameView { namespace: Some(uri), ..name })
            },
            None => None,
        }
    } else {
        Some(NameView { namespace: None, ..name })
    }
}

/// The parser after the document has come to `stage`, and the event for the
/// start of the document where this is the first thing of the document and
/// no declaration has been read.
pub open spec fn encountered_step(v: ParserView, stage: Encountered) -> (ParserView, Option<Polled>) {
    if stage.rank() <= v.encountered.rank() {
        (v, None)
    } else if v.encountered == Encountered::Nothing {
        (
            ParserView { encountered: stage, pos: v.pos.push(v.lexer.pos), ..v },
            Some(
                Polled::Event(
                    EventView::StartDocument {
                        version: "1.0"@,
                        encoding: v.lexer.reader.encoding.name(),
                        standalone: None,
                    },
                ),
            ),
        )
    } else {
        (ParserView { encountered: stage, ..v }, None)
    }
}

/// The first of two events that is there.
pub open spec fn or_else(first: Option<Polled>, second: Option<Polled>) -> Option<Polled> {
    if first is Some {
        first
    } else {
        second
    }
}

/// The parser ready to read a document type declaration.
pub open spec fn doctype_started(v: ParserView) -> ParserView {
    ParserView {
        data: DataView {
            doctype: "<!DOCTYPE"@,
            doctype_name: Seq::empty(),
            public_id: None,
            system_id: None,
            ..v.data
        },
        buf: Seq::empty(),
        st: State::InsideDoctype(DoctypeSubstate::BeforeName),
        pos: v.pos.push(v.lexer.pos),
        ..v
    }
}

/// The first token of the document.
pub open spec fn document_start(v: ParserView, t: Token) -> (ParserView, Option<Polled>) {
    match t {
        Token::Character(c) => {
            let (w, first) = encountered_step(v, Encountered::AnyChars);
            if !is_whitespace(c) {
                fails(w, SyntaxError::UnexpectedTokenOutsideRoot(t).text())
            } else if (w.config.trim_whitespace && w.buf.len() == 0) || (w.est.len() == 0
                && w.config.ignore_root_level_whitespace) {
                (ParserView { inside_whitespace: true, st: State::OutsideTag, ..w }, first)
            } else {
                (
                    ParserView {
                        inside_whitespace: true,
                        st: State::OutsideTag,
                        buf: w.buf.push(c),
                        pos: w.pos.push(w.lexer.pos),
                        ..w
                    },
                    first,
                )
            }
        },
        Token::CommentStart => {
            let (w, first) = encountered_step(v, Encountered::Comment);
            (ParserView { st: State::InsideComment, ..w }, first)
        },
        Token::OpeningTagStart => {
            let (w, first) = encountered_step(v, Encountered::Element);
            (
                ParserView {
                    frames: w.frames.push(Seq::empty()),
                    st: State::InsideOpeningTag(OpeningTagSubstate::InsideName),
                    ..w
                },
                first,
            )
        },
        Token::DoctypeStart => {
            let (w, first) = encountered_step(v, Encountered::Doctype);
            (doctype_started(w), first)
        },
        Token::ProcessingInstructionStart => (
            ParserView {
                pos: v.pos.push(v.lexer.pos),
                st: State::InsideProcessingInstruction(ProcessingInstructionSubstate::PIInsideName),
                ..v
            },
            None,
        ),
        _ => fails(v, SyntaxError::UnexpectedToken(t).text()),
    }
}

/// A token added to the text that is being gathered.
pub open spec fn gathered(v: ParserView, t: Token) -> (ParserView, Option<Polled>) {
    if v.buf.len() > 0 && v.buf.len() > v.config.max_data_length {
        fails(v, SyntaxError::ExceededConfiguredLimit.text())
    } else {
        (
            ParserView {
                buf: v.buf + t.data_text(),
                pos: if v.buf.len() == 0 { v.pos.push(v.lexer.pos) } else { v.pos },
                ..v
            },
            None,
        )
    }
}

/// Whether a token between pieces of markup is text: a character, or a
/// token that has no meaning there; and the references within an element.
pub open spec fn is_text(v: ParserView, t: Token) -> bool {
    match t {
        Token::Character(_) | Token::CommentEnd | Token::TagEnd | Token::EqualsSign | Token::DoubleQuote
        | Token::SingleQuote | Token::ProcessingInstructionEnd | Token::EmptyTagEnd => true,
        Token::ReferenceStart | Token::ReferenceEnd => v.est.len() > 0,
        Token::CommentStart => v.config.coalesce_characters && v.config.ignore_comments,
        Token::CDataStart => v.est.len() > 0 && v.config.coalesce_characters && v.config.cdata_to_characters,
        _ => false,
    }
}

/// A token that is text between pieces of markup.
pub open spec fn outside_text(v: ParserView, t: Token) -> (ParserView, Option<Polled>) {
    let depth = v.est.len();
    match t {
        Token::Character(c) => {
            if is_whitespace(c) && ((v.config.trim_whitespace && v.buf.len() == 0) || (depth == 0
                && v.config.ignore_root_level_whitespace)) {
                (v, None)
            } else if !is_whitespace(c) && depth == 0 {
                fails(v, SyntaxError::UnexpectedTokenOutsideRoot(t).text())
            } else if !valid_char_not_restricted(v, c) {
                fails(v, SyntaxError::InvalidCharacterEntity(c as u32).text())
            } else {
                gathered(ParserView { inside_whitespace: v.inside_whitespace && is_whitespace(c), ..v }, t)
            }
        },
        Token::ReferenceStart => (
            ParserView { state_after_reference: State::OutsideTag, st: State::InsideReference, ..v },
            None,
        ),
        Token::ReferenceEnd => gathered(ParserView { inside_whitespace: false, ..v }, t),
        Token::CommentStart => {
            let (w, first) = encountered_step(v, Encountered::Comment);
            (ParserView { st: State::InsideComment, ..w }, first)
        },
        Token::CDataStart => (
            ParserView {
                pos: if v.buf.len() == 0 { v.pos.push(v.lexer.pos) } else { v.pos },
                st: State::InsideCData,
                ..v
            },
            None,
        ),
        _ => if depth == 0 {
            fails(v, SyntaxError::UnexpectedTokenOutsideRoot(t).text())
        } else {
            gathered(ParserView { inside_whitespace: false, ..v }, t)
        },
    }
}

/// A token between pieces of markup: text is gathered; markup ends the
/// text, which is reported, and starts a piece of markup.
pub open spec fn outside_tag(v: ParserView, t: Token) -> (ParserView, Option<Polled>) {
    if is_text(v, t) {
        outside_text(v, t)
    } else {
        let depth = v.est.len();
        let text = match flushed(v.buf, v.inside_whitespace, v.config) {
            Some(e) => Some(Polled::Event(e)),
            None => None,
        };
        let w = ParserView {
            buf: Seq::empty(),
            inside_whitespace: true,
            pos: if t == Token::CommentStart && v.config.ignore_comments { v.pos } else { v.pos.push(v.lexer.pos) },
            ..v
        };
        match t {
            Token::OpeningTagStart => if depth > 0 || w.encountered.rank() < Encountered::Element.rank()
                || w.config.allow_multiple_root_elements {
                let (x, first) = encountered_step(w, Encountered::Element);
                (
                    ParserView {
                        frames: x.frames.push(Seq::empty()),
                        st: State::InsideOpeningTag(OpeningTagSubstate::InsideName),
                        ..x
                    },
                    or_else(first, text),
                )
            } else {
                fails(w, SyntaxError::UnexpectedToken(t).text())
            },
            Token::ClosingTagStart => if depth > 0 {
                (ParserView { st: State::InsideClosingTag(ClosingTagSubstate::CTInsideName), ..w }, text)
            } else {
                fails(w, SyntaxError::UnexpectedToken(t).text())
            },
            Token::CommentStart => {
                let (x, first) = encountered_step(w, Encountered::Comment);
                (ParserView { st: State::InsideComment, ..x }, or_else(first, text))
            },
            Token::DoctypeStart => if w.encountered.rank() < Encountered::Doctype.rank() {
                let (x, first) = encountered_step(w, Encountered::Doctype);
                (doctype_started(x), or_else(first, text))
            } else {
                fails(w, SyntaxError::UnexpectedToken(t).text())
            },
            Token::ProcessingInstructionStart => (
                ParserView {
                    st: State::InsideProcessingInstruction(ProcessingInstructionSubstate::PIInsideName),
                    pos: w.pos.push(w.lexer.pos),
                    ..w
                },
                text,
            ),
            Token::CDataStart => if depth > 0 {
                (ParserView { st: State::InsideCData, ..w }, text)
            } else {
                fails(w, SyntaxError::UnexpectedToken(t).text())
            },
            _ => fails(w, SyntaxError::UnexpectedToken(t).text()),
        }
    }
}

/// A token within a comment.
pub open spec fn inside_comment(v: ParserView, t: Token) -> (ParserView, Option<Polled>) {
    if t == Token::CommentEnd {
        if v.config.ignore_comments {
            goes(v, State::OutsideTag)
        } else {
            (
                ParserView { st: State::OutsideTag, buf: Seq::empty(), ..v },
                Some(Polled::Event(EventView::Comment(v.buf))),
            )
        }
    } else if v.config.ignore_comments {
        (v, None)
    } else if v.buf.len() > v.config.max_data_length {
        fails(v, SyntaxError::ExceededConfiguredLimit.text())
    } else {
        (ParserView { buf: v.buf + t.data_text(), ..v }, None)
    }
}

/// A token within a CDATA section.
pub open spec fn inside_cdata(v: ParserView, t: Token) -> (ParserView, Option<Polled>) {
    match t {
        Token::CDataEnd => if v.config.cdata_to_characters {
            goes(if v.buf.len() == 0 { advanced(v) } else { v }, State::OutsideTag)
        } else {
            (
                ParserView { st: State::OutsideTag, buf: Seq::empty(), ..v },
                Some(Polled::Event(EventView::CData(v.buf))),
            )
        },
        Token::Character(c) => if !valid_char(v, c) {
            fails(v, SyntaxError::InvalidCharacterEntity(c as u32).text())
        } else if v.buf.len() > v.config.max_data_length {
            fails(v, SyntaxError::ExceededConfiguredLimit.text())
        } else {
            (ParserView { buf: v.buf.push(c), inside_whitespace: v.inside_whitespace && is_whitespace(c), ..v }, None)
        },
        _ => fails(v, SyntaxError::UnexpectedToken(t).text()),
    }
}

/// Whether a prefix is one of the reserved prefixes, `xml` and `xmlns`, which
/// no element has.
pub open spec fn reserved_prefix(name: NameView) -> bool {
    name.prefix matches Some(p) && (p == NS_XML_PREFIX@ || p == NS_XMLNS_PREFIX@)
}

/// The end of an end tag: the end of the element, whose scope is closed.
///
/// Fails where the prefix of the name is not bound, or where the name is
/// not the name of the element that is open.
pub open spec fn end_element(v: ParserView) -> (ParserView, Option<Polled>) {
    let w = ParserView { data: DataView { element_name: no_name(), ..v.data }, ..v };
    match resolved_name(v.data.element_name, v.frames, true) {
        None => fails(w, "Element "@ + v.data.element_name.text() + " prefix is unbound"@),
        Some(name) => if v.est.len() > 0 && v.est.last().same(name) {
            (
                ParserView { est: w.est.drop_last(), frames: w.frames.drop_last(), st: State::OutsideTag, ..w },
                Some(Polled::Event(EventView::EndElement { name })),
            )
        } else {
            fails(
                w,
                "Unexpected closing tag: "@ + ("got "@ + name.text() + " expected "@ + (if v.est.len() > 0 {
                    v.est.last().text()
                } else {
                    Seq::empty()
                })),
            )
        },
    }
}

/// A token within an end tag.
pub open spec fn inside_closing_tag_name(v: ParserView, t: Token, s: ClosingTagSubstate) -> (ParserView, Option<Polled>) {
    match s {
        ClosingTagSubstate::CTInsideName => match name_step(
            v.buf,
            v.read_prefix_separator,
            t,
            QualifiedNameTarget::ClosingTagNameTarget,
            v.config.max_name_length,
        ) {
            NameStep::More(buf, seen) => (ParserView { buf, read_prefix_separator: seen, ..v }, None),
            NameStep::Failed(message) => fails(v, message),
            NameStep::Name(name) => {
                let w = ParserView { buf: Seq::empty(), read_prefix_separator: if v.buf.len() <= 1 { false } else { v.read_prefix_separator }, ..v };
                if reserved_prefix(name) {
                    fails(w, "'"@ + name.prefix->0 + "' cannot be an element name prefix"@)
                } else {
                    let x = ParserView { data: DataView { element_name: name, ..w.data }, ..w };
                    if t == Token::TagEnd {
                        end_element(x)
                    } else {
                        goes(x, State::InsideClosingTag(ClosingTagSubstate::CTAfterName))
                    }
                }
            },
        },
        ClosingTagSubstate::CTAfterName => if t == Token::TagEnd {
            end_element(v)
        } else if is_space(t) {
            (v, None)
        } else {
            fails(v, SyntaxError::UnexpectedTokenInClosingTag(t).text())
        },
    }
}

/// Whether `s` is `xml` in any mix of upper and lower case.
pub open spec fn names_xml(s: Seq<char>) -> bool {
    s.len() == 3 && (s[0] == 'x' || s[0] == 'X') && (s[1] == 'm' || s[1] == 'M') && (s[2] == 'l' || s[2] == 'L')
}

/// A token within a processing instruction.
///
/// An instruction named `xml` at the very start of the document is the
/// declaration of the document; anywhere else that name, in any case, is an
/// error.  An instruction without data that is the first thing of the
/// document is reported after the start of the document.
pub open spec fn inside_processing_instruction(v: ParserView, t: Token, s: ProcessingInstructionSubstate) -> (
    ParserView,
    Option<Polled>,
) {
    let taken = ParserView { buf: Seq::empty(), ..v };
    match s {
        ProcessingInstructionSubstate::PIInsideName => match t {
            Token::Character(c) => if (v.buf.len() == 0 && is_name_start(c)) || (v.buf.len() > 0 && is_name(c)) {
                if v.buf.len() > v.config.max_name_length {
                    fails(v, SyntaxError::ExceededConfiguredLimit.text())
                } else {
                    (ParserView { buf: v.buf.push(c), ..v }, None)
                }
            } else if !is_whitespace(c) {
                fails(taken, "Unexpected token inside processing instruction: <?"@ + v.buf + t.text())
            } else if v.buf == "xml"@ && v.encountered == Encountered::Nothing {
                goes(taken, State::InsideDeclaration(DeclarationSubstate::BeforeVersion))
            } else if names_xml(v.buf) {
                fails(
                    taken,
                    "Invalid processing instruction: <?"@ + v.buf
                        + "\nThe XML spec only allows \"<?xml\" at the very beginning of the file, with no whitespace, comments, or any elements before it"@,
                )
            } else if v.buf.len() == 0 {
                fails(taken, SyntaxError::ProcessingInstructionWithoutName.text())
            } else {
                let (w, first) = encountered_step(
                    ParserView { data: DataView { name: v.buf, ..v.data }, ..taken },
                    Encountered::Declaration,
                );
                (
                    ParserView {
                        st: State::InsideProcessingInstruction(ProcessingInstructionSubstate::PIInsideData),
                        ..w
                    },
                    first,
                )
            },
            Token::ProcessingInstructionEnd => if v.buf.len() == 0 {
                fails(taken, SyntaxError::ProcessingInstructionWithoutName.text())
            } else if names_xml(v.buf) {
                fails(
                    taken,
                    "Invalid processing instruction: <?"@ + v.buf
                        + "\nThe XML spec only allows \"<?xml\" at the very beginning of the file, with no whitespace, comments, or any elements before it"@,
                )
            } else {
                let event = EventView::ProcessingInstruction { name: v.buf, data: None };
                let (w, first) = encountered_step(
                    ParserView { st: State::OutsideTag, ..taken },
                    Encountered::Declaration,
                );
                match first {
                    Some(start) => (ParserView { next_event: Some(event), ..w }, Some(start)),
                    None => (w, Some(Polled::Event(event))),
                }
            },
            _ => fails(taken, "Unexpected token inside processing instruction: <?"@ + v.buf + t.text()),
        },
        ProcessingInstructionSubstate::PIInsideData => if t == Token::ProcessingInstructionEnd {
            (
                ParserView {
                    st: State::OutsideTag,
                    buf: Seq::empty(),
                    data: DataView { name: Seq::empty(), ..v.data },
                    ..v
                },
                Some(Polled::Event(EventView::ProcessingInstruction { name: v.data.name, data: Some(v.buf) })),
            )
        } else if t matches Token::Character(c) && !valid_char(v, c) {
            fails(v, SyntaxError::InvalidCharacterEntity(t->Character_0 as u32).text())
        } else if v.buf.len() > v.config.max_data_length {
            fails(v, SyntaxError::ExceededConfiguredLimit.text())
        } else if t == Token::ClosingTagStart {
            (ParserView { buf: v.buf.push('/'), ..v }, None)
        } else {
            (ParserView { buf: v.buf + t.data_text(), ..v }, None)
        },
    }
}

/// The character that a predefined entity stands for.
pub open spec fn predefined(name: Seq<char>) -> Option<char> {
    if name == "lt"@ {
        Some('<')
    } else if name == "gt"@ {
        Some('>')
    } else if name == "amp"@ {
        Some('&')
    } else if name == "apos"@ {
        Some('\'')
    } else if name == "quot"@ {
        Some('"')
    } else {
        None
    }
}

/// Whether every character of `s` is white space.
pub open spec fn all_space(s: Seq<char>) -> bool {
    forall|i: int| 0 <= i < s.len() ==> is_whitespace(#[trigger] s[i])
}

/// The parser back in the state in which the reference started.
pub open spec fn referred(v: ParserView) -> (ParserView, Option<Polled>) {
    (
        ParserView {
            inside_whitespace: v.inside_whitespace && !(v.state_after_reference == State::OutsideTag && !all_space(
                v.buf,
            )),
            st: v.state_after_reference,
            ..v
        },
        None,
    )
}

/// A token within a reference.
///
/// At the end of the reference its text takes its place: the character of a
/// predefined entity or of a numeric reference, or the replacement text of an
/// entity that has been defined; entities that were given to the reader
/// come before those of the document.  Between tags the replacement text of
/// an entity of the document is read again as part of the document; within
/// an attribute value it is taken as text.
pub open spec fn inside_reference(v: ParserView, t: Token) -> (ParserView, Option<Polled>) {
    match t {
        Token::Character(c) => {
            let first = v.data.ref_data.len() == 0;
            if (!first && is_name(c)) || (first && (is_name_start(c) || c == '#')) {
                (ParserView { data: DataView { ref_data: v.data.ref_data.push(c), ..v.data }, ..v }, None)
            } else {
                fails(v, SyntaxError::UnexpectedTokenInEntity(t).text())
            }
        },
        Token::ReferenceEnd => {
            let name = v.data.ref_data;
            let w = ParserView { data: DataView { ref_data: Seq::empty(), ..v.data }, ..v };
            if name.len() == 0 {
                fails(w, SyntaxError::EmptyEntity.text())
            } else if name[0] == '#' {
                match numeric(name, version11(v)) {
                    Ok(c) => referred(ParserView { buf: w.buf.push(c), ..w }),
                    Err(message) => fails(w, message),
                }
            } else if predefined(name) is Some {
                referred(ParserView { buf: w.buf.push(predefined(name)->0), ..w })
            } else if entity_at(pairs(v.config.extra_entities@), name) is Some {
                let k = entity_at(pairs(v.config.extra_entities@), name)->0;
                referred(ParserView { buf: w.buf + v.config.extra_entities@[k].1@, ..w })
            } else if entity_at(v.entities, name) is Some {
                let text = v.entities[entity_at(v.entities, name)->0].1;
                if v.state_after_reference == State::OutsideTag {
                    match reparsed(v.lexer, text).1 {
                        None => referred(ParserView { lexer: reparsed(v.lexer, text).0, ..w }),
                        Some(_) => fails(w, SyntaxError::EntityTooBig.text()),
                    }
                } else {
                    referred(ParserView { buf: w.buf + text, ..w })
                }
            } else {
                fails(w, "Undefined entity: "@ + name)
            }
        },
        _ => fails(v, SyntaxError::UnexpectedTokenInEntity(t).text()),
    }
}

/// `frames` with `prefix` bound to `uri` in the top frame, unless that frame
/// binds the prefix already.
pub open spec fn bind(frames: Seq<Bindings>, prefix: Seq<char>, uri: Seq<char>) -> Seq<Bindings> {
    if frames.len() > 0 && bound(frames.last(), prefix) is None {
        frames.update(frames.len() - 1, frames.last().push((prefix, uri)))
    } else {
        frames
    }
}

/// The attributes of an element with their names resolved against the
/// namespaces in scope, or the message of the first error: a prefix that is
/// not bound, or an attribute that has the local name and the namespace of
/// one before it.
pub open spec fn resolved_attributes(attributes: Seq<AttributeView>, frames: Seq<Bindings>) -> Result<
    Seq<AttributeView>,
    Seq<char>,
>
    decreases attributes.len(),
{
    if attributes.len() == 0 {
        Ok(Seq::empty())
    } else {
        match resolved_attributes(attributes.drop_last(), frames) {
            Err(message) => Err(message),
            Ok(done) => match resolved_name(attributes.last().name, frames, false) {
                None => Err("Attribute "@ + attributes.last().name.text() + " prefix is unbound"@),
                Some(name) => if exists|i: int| 0 <= i < done.len() && (#[trigger] done[i]).name.same(name) {
                    Err("Attribute '"@ + name.text() + "' is redefined"@)
                } else {
                    Ok(done.push(AttributeView { name, value: attributes.last().value }))
                },
            },
        }
    }
}

/// The end of a start tag: the start of the element, with the names of the
/// element and of its attributes resolved against the namespaces in scope,
/// and with those namespaces seen as one.  For an empty element the end of
/// the element is reported next.
pub open spec fn start_element(v: ParserView, empty: bool) -> (ParserView, Option<Polled>) {
    let w = ParserView { data: DataView { element_name: no_name(), ..v.data }, ..v };
    match resolved_name(v.data.element_name, v.frames, true) {
        None => fails(w, "Element "@ + v.data.element_name.text() + " prefix is unbound"@),
        Some(name) => match resolved_attributes(v.data.attributes, v.frames) {
            Err(message) => fails(w, message),
            Ok(attributes) => (
                ParserView {
                    data: DataView { attributes: Seq::empty(), ..w.data },
                    next_event: if empty { Some(EventView::EndElement { name }) } else { None },
                    est: if empty { v.est } else { v.est.push(name) },
                    st: State::OutsideTag,
                    ..w
                },
                Some(Polled::Event(EventView::StartElement { name, attributes, namespace: squashed(v.frames) })),
            ),
        },
    }
}

/// An attribute whose value has been read: a declaration of a namespace goes
/// into the frame of the element, every other attribute is kept for the
/// event.
///
/// The prefix `xmlns` cannot be declared, and `xml` only with its own
/// namespace; the reserved prefixes and namespaces cannot be the default
/// namespace.
pub open spec fn attribute_read(v: ParserView, value: Seq<char>) -> (ParserView, Option<Polled>) {
    let name = v.data.attr_name;
    let w = ParserView { data: DataView { attr_name: no_name(), quote: None, ..v.data }, buf: Seq::empty(), ..v };
    let after = State::InsideOpeningTag(OpeningTagSubstate::AfterAttributeValue);
    if name.prefix == Some(NS_XMLNS_PREFIX@) {
        if name.local_name == NS_XMLNS_PREFIX@ {
            fails(w, SyntaxError::CannotRedefineXmlnsPrefix.text())
        } else if name.local_name == NS_XML_PREFIX@ && value != NS_XML_URI@ {
            fails(w, SyntaxError::CannotRedefineXmlPrefix.text())
        } else {
            goes(ParserView { frames: bind(w.frames, name.local_name, value), ..w }, after)
        }
    } else if name.prefix is None && name.local_name == NS_XMLNS_PREFIX@ {
        if value == NS_XMLNS_PREFIX@ || value == NS_XML_PREFIX@ || value == NS_XML_URI@ || value == NS_XMLNS_URI@ {
            fails(w, "Namespace '"@ + value + "' cannot be default"@)
        } else {
            goes(ParserView { frames: bind(w.frames, NS_NO_PREFIX@, value), ..w }, after)
        }
    } else if v.data.attributes.len() >= v.config.max_attributes {
        fails(w, SyntaxError::ExceededConfiguredLimit.text())
    } else {
        goes(
            ParserView {
                data: DataView { attributes: w.data.attributes.push(AttributeView { name, value }), ..w.data },
                ..w
            },
            after,
        )
    }
}

/// The parser after a name has been taken from what was read.
pub open spec fn name_taken(v: ParserView) -> ParserView {
    ParserView {
        buf: Seq::empty(),
        read_prefix_separator: if v.buf.len() <= 1 { false } else { v.read_prefix_separator },
        ..v
    }
}

/// A token within a start tag.
///
/// An attribute named `xmlns` or with the prefix `xmlns` declares a
/// namespace for the element; an attribute whose written name, prefix and
/// local name, has occurred in the tag is an error.  The end of the tag
/// gives the start of the element.
pub open spec fn inside_opening_tag(v: ParserView, t: Token, s: OpeningTagSubstate) -> (ParserView, Option<Polled>) {
    match s {
        OpeningTagSubstate::InsideName => match name_step(
            v.buf,
            v.read_prefix_separator,
            t,
            QualifiedNameTarget::OpeningTagNameTarget,
            v.config.max_name_length,
        ) {
            NameStep::More(buf, seen) => (ParserView { buf, read_prefix_separator: seen, ..v }, None),
            NameStep::Failed(message) => fails(v, message),
            NameStep::Name(name) => if reserved_prefix(name) {
                fails(v, "'"@ + name.prefix->0 + "' cannot be an element name prefix"@)
            } else {
                let x = ParserView { data: DataView { element_name: name, ..v.data }, ..name_taken(v) };
                if t == Token::TagEnd {
                    start_element(x, false)
                } else if t == Token::EmptyTagEnd {
                    start_element(x, true)
                } else {
                    goes(x, State::InsideOpeningTag(OpeningTagSubstate::InsideTag))
                }
            },
        },
        OpeningTagSubstate::InsideTag => match t {
            Token::TagEnd => start_element(v, false),
            Token::EmptyTagEnd => start_element(v, true),
            Token::Character(c) => if is_whitespace(c) {
                (v, None)
            } else if is_name_start(c) {
                if v.buf.len() > v.config.max_name_length {
                    fails(v, SyntaxError::ExceededConfiguredLimit.text())
                } else {
                    goes(
                        ParserView { buf: v.buf.push(c), ..v },
                        State::InsideOpeningTag(OpeningTagSubstate::InsideAttributeName),
                    )
                }
            } else {
                fails(v, SyntaxError::UnexpectedTokenInOpeningTag(t).text())
            },
            _ => fails(v, SyntaxError::UnexpectedTokenInOpeningTag(t).text()),
        },
        OpeningTagSubstate::InsideAttributeName => match name_step(
            v.buf,
            v.read_prefix_separator,
            t,
            QualifiedNameTarget::AttributeNameTarget,
            v.config.max_name_length,
        ) {
            NameStep::More(buf, seen) => (ParserView { buf, read_prefix_separator: seen, ..v }, None),
            NameStep::Failed(message) => fails(v, message),
            NameStep::Name(name) => if exists|i: int|
                0 <= i < v.data.attributes.len() && (#[trigger] v.data.attributes[i]).name.local_name
                    == name.local_name && v.data.attributes[i].name.prefix == name.prefix {
                fails(v, "Attribute '"@ + name.text() + "' is redefined"@)
            } else {
                goes(
                    ParserView { data: DataView { attr_name: name, ..v.data }, ..name_taken(v) },
                    State::InsideOpeningTag(
                        if t == Token::EqualsSign {
                            OpeningTagSubstate::InsideAttributeValue
                        } else {
                            OpeningTagSubstate::AfterAttributeName
                        },
                    ),
                )
            },
        },
        OpeningTagSubstate::AfterAttributeName => if t == Token::EqualsSign {
            goes(v, State::InsideOpeningTag(OpeningTagSubstate::InsideAttributeValue))
        } else if is_space(t) {
            (v, None)
        } else {
            fails(v, SyntaxError::UnexpectedTokenInOpeningTag(t).text())
        },
        OpeningTagSubstate::InsideAttributeValue => match value_step(
            v.buf,
            v.data.quote,
            t,
            v.config.max_attribute_length,
            version11(v),
        ) {
            ValueStep::More(buf, quote) => (ParserView { buf, data: DataView { quote, ..v.data }, ..v }, None),
            ValueStep::Failed(message) => fails(v, message),
            ValueStep::Reference => (
                ParserView { state_after_reference: v.st, st: State::InsideReference, ..v },
                None,
            ),
            ValueStep::Value(value) => attribute_read(v, value),
        },
        OpeningTagSubstate::AfterAttributeValue => match t {
            Token::Character(c) => if is_whitespace(c) {
                goes(v, State::InsideOpeningTag(OpeningTagSubstate::InsideTag))
            } else {
                fails(v, SyntaxError::UnexpectedTokenInOpeningTag(t).text())
            },
            Token::TagEnd => start_element(v, false),
            Token::EmptyTagEnd => start_element(v, true),
            _ => fails(v, SyntaxError::UnexpectedTokenInOpeningTag(t).text()),
        },
    }
}

/// The encoding in which a document is read from its declaration on, where
/// it has been read as `current` so far and declares `declared`; nothing
/// where the two contradict each other.
///
/// A document whose encoding is open takes the declared one, unless that is
/// UTF-16 without a byte order.  A document that was found to be UTF-16 by
/// its byte order mark may declare UTF-16.
pub open spec fn settled(current: Encoding, declared: Encoding) -> Option<Encoding> {
    if current == declared {
        Some(current)
    } else if (current == Encoding::Unknown || current == Encoding::Default) && declared != Encoding::Utf16 {
        Some(declared)
    } else if (current == Encoding::Utf16Be || current == Encoding::Utf16Le) && declared == Encoding::Utf16 {
        Some(current)
    } else {
        None
    }
}

/// The end of the declaration: the encoding is settled and the start of the
/// document is reported.
///
/// Fails where the declared encoding is not known, or contradicts the one
/// that the document has been read in so far.
pub open spec fn start_document(v: ParserView) -> (ParserView, Option<Polled>) {
    let w = ParserView {
        encountered: Encountered::Declaration,
        data: DataView { encoding: None, ..v.data },
        ..v
    };
    let current = v.lexer.reader.encoding;
    let version = match v.data.version {
        Some(x) => x.text(),
        None => "1.0"@,
    };
    match v.data.encoding {
        Some(name) => match Encoding::named(name) {
            None => fails(w, "Unsupported encoding: "@ + name),
            Some(declared) => match settled(current, declared) {
                None => fails(w, SyntaxError::ConflictingEncoding(declared, current).text()),
                Some(e) => (
                    ParserView {
                        lexer: LexerView { reader: CharReader { encoding: e, ..w.lexer.reader }, ..w.lexer },
                        st: State::OutsideTag,
                        ..w
                    },
                    Some(
                        Polled::Event(
                            EventView::StartDocument { version, encoding: name, standalone: v.data.standalone },
                        ),
                    ),
                ),
            },
        },
        None => (
            ParserView { st: State::OutsideTag, ..w },
            Some(
                Polled::Event(
                    EventView::StartDocument { version, encoding: current.name(), standalone: v.data.standalone },
                ),
            ),
        ),
    }
}

/// A token of the name of a pseudo-attribute of the declaration, whose first
/// letter has been read already and which is to be `rest`.
pub open spec fn declaration_name(
    v: ParserView,
    t: Token,
    rest: Seq<char>,
    value: DeclarationSubstate,
    after: DeclarationSubstate,
) -> (ParserView, Option<Polled>) {
    match name_step(
        v.buf,
        v.read_prefix_separator,
        t,
        QualifiedNameTarget::AttributeNameTarget,
        v.config.max_name_length,
    ) {
        NameStep::More(buf, seen) => (ParserView { buf, read_prefix_separator: seen, ..v }, None),
        NameStep::Failed(message) => fails(v, message),
        NameStep::Name(name) => if name.prefix is None && name.local_name == rest {
            goes(name_taken(v), State::InsideDeclaration(if t == Token::EqualsSign { value } else { after }))
        } else {
            fails(v, "Unexpected name inside XML declaration: "@ + name.text())
        },
    }
}

/// A token of the value of a pseudo-attribute of the declaration.  A
/// reference is not allowed there.
pub open spec fn declaration_value(v: ParserView, t: Token) -> ValueStep {
    match value_step(v.buf, v.data.quote, t, v.config.max_attribute_length, version11(v)) {
        ValueStep::Reference => ValueStep::Failed(SyntaxError::UnexpectedToken(t).text()),
        other => other,
    }
}

/// The parser after the value of a pseudo-attribute has been taken from what
/// was read.
pub open spec fn value_taken(v: ParserView) -> ParserView {
    ParserView { buf: Seq::empty(), data: DataView { quote: None, ..v.data }, ..v }
}

/// A token within the declaration at the start of a document: a version,
/// then optionally an encoding, then optionally a standalone declaration.
pub open spec fn inside_declaration(v: ParserView, t: Token, s: DeclarationSubstate) -> (ParserView, Option<Polled>) {
    let unexpected = fails(v, SyntaxError::UnexpectedToken(t).text());
    let more = |buf: Seq<char>, quote: Option<QuoteToken>| (ParserView { buf, data: DataView { quote, ..v.data }, ..v }, None::<Polled>);
    match s {
        DeclarationSubstate::BeforeVersion => if t == Token::Character('v') {
            goes(v, State::InsideDeclaration(DeclarationSubstate::InsideVersion))
        } else if is_space(t) {
            (v, None)
        } else {
            unexpected
        },
        DeclarationSubstate::InsideVersion => declaration_name(
            v,
            t,
            "ersion"@,
            DeclarationSubstate::InsideVersionValue,
            DeclarationSubstate::AfterVersion,
        ),
        DeclarationSubstate::AfterVersion => if t == Token::EqualsSign {
            goes(v, State::InsideDeclaration(DeclarationSubstate::InsideVersionValue))
        } else if is_space(t) {
            (v, None)
        } else {
            unexpected
        },
        DeclarationSubstate::InsideVersionValue => match declaration_value(v, t) {
            ValueStep::More(buf, quote) => more(buf, quote),
            ValueStep::Reference => (v, None),
            ValueStep::Failed(message) => fails(v, message),
            ValueStep::Value(value) => match XmlVersion::parsed(value, v.config.allow_any_minor_version) {
                Some(version) => goes(
                    ParserView { data: DataView { version: Some(version), ..value_taken(v).data }, ..value_taken(v) },
                    State::InsideDeclaration(DeclarationSubstate::AfterVersionValue),
                ),
                None => fails(v, "Invalid XML version: "@ + value),
            },
        },
        DeclarationSubstate::AfterVersionValue => if is_space(t) {
            goes(v, State::InsideDeclaration(DeclarationSubstate::BeforeEncoding))
        } else if t == Token::ProcessingInstructionEnd {
            start_document(v)
        } else {
            unexpected
        },
        DeclarationSubstate::BeforeEncoding => if t == Token::Character('e') {
            goes(v, State::InsideDeclaration(DeclarationSubstate::InsideEncoding))
        } else if t == Token::Character('s') {
            goes(v, State::InsideDeclaration(DeclarationSubstate::InsideStandaloneDecl))
        } else if t == Token::ProcessingInstructionEnd {
            start_document(v)
        } else if is_space(t) {
            (v, None)
        } else {
            unexpected
        },
        DeclarationSubstate::InsideEncoding => declaration_name(
            v,
            t,
            "ncoding"@,
            DeclarationSubstate::InsideEncodingValue,
            DeclarationSubstate::AfterEncoding,
        ),
        DeclarationSubstate::AfterEncoding => if t == Token::EqualsSign {
            goes(v, State::InsideDeclaration(DeclarationSubstate::InsideEncodingValue))
        } else if is_space(t) {
            (v, None)
        } else {
            unexpected
        },
        DeclarationSubstate::InsideEncodingValue => match declaration_value(v, t) {
            ValueStep::More(buf, quote) => more(buf, quote),
            ValueStep::Reference => (v, None),
            ValueStep::Failed(message) => fails(v, message),
            ValueStep::Value(value) => goes(
                ParserView { data: DataView { encoding: Some(value), ..value_taken(v).data }, ..value_taken(v) },
                State::InsideDeclaration(DeclarationSubstate::AfterEncodingValue),
            ),
        },
        DeclarationSubstate::AfterEncodingValue => if is_space(t) {
            goes(v, State::InsideDeclaration(DeclarationSubstate::BeforeStandaloneDecl))
        } else if t == Token::ProcessingInstructionEnd {
            start_document(v)
        } else {
            unexpected
        },
        DeclarationSubstate::BeforeStandaloneDecl => if t == Token::Character('s') {
            goes(v, State::InsideDeclaration(DeclarationSubstate::InsideStandaloneDecl))
        } else if t == Token::ProcessingInstructionEnd {
            start_document(v)
        } else if is_space(t) {
            (v, None)
        } else {
            unexpected
        },
        DeclarationSubstate::InsideStandaloneDecl => declaration_name(
            v,
            t,
            "tandalone"@,
            DeclarationSubstate::InsideStandaloneDeclValue,
            DeclarationSubstate::AfterStandaloneDecl,
        ),
        DeclarationSubstate::AfterStandaloneDecl => if t == Token::EqualsSign {
            goes(v, State::InsideDeclaration(DeclarationSubstate::InsideStandaloneDeclValue))
        } else if is_space(t) {
            (v, None)
        } else {
            unexpected
        },
        DeclarationSubstate::InsideStandaloneDeclValue => match declaration_value(v, t) {
            ValueStep::More(buf, quote) => more(buf, quote),
            ValueStep::Reference => (v, None),
            ValueStep::Failed(message) => fails(v, message),
            ValueStep::Value(value) => if value == "yes"@ || value == "no"@ {
                goes(
                    ParserView {
                        data: DataView { standalone: Some(value == "yes"@), ..value_taken(v).data },
                        ..value_taken(v)
                    },
                    State::InsideDeclaration(DeclarationSubstate::AfterStandaloneDeclValue),
                )
            } else {
                fails(v, "Invalid standalone declaration value: "@ + value)
            },
        },
        DeclarationSubstate::AfterStandaloneDeclValue => if t == Token::ProcessingInstructionEnd {
            start_document(v)
        } else if is_space(t) {
            (v, None)
        } else {
            unexpected
        },
    }
}

/// The end of the document type declaration, which is reported.
pub open spec fn doctype_ended(v: ParserView) -> (ParserView, Option<Polled>) {
    (
        ParserView {
            st: State::OutsideTag,
            data: DataView {
                doctype_name: Seq::empty(),
                doctype: Seq::empty(),
                public_id: None,
                system_id: None,
                ..v.data
            },
            ..v
        },
        Some(
            Polled::Event(
                EventView::Doctype {
                    name: v.data.doctype_name,
                    syntax: v.data.doctype,
                    public_id: v.data.public_id,
                    system_id: v.data.system_id,
                },
            ),
        ),
    )
}

/// The parser in the given state of the document type declaration.
pub open spec fn dtd(v: ParserView, s: DoctypeSubstate) -> (ParserView, Option<Polled>) {
    goes(v, State::InsideDoctype(s))
}

/// A token of the head of a document type declaration: the name of the root
/// element, then a system identifier after `SYSTEM` or a public and a system
/// identifier after `PUBLIC`, then the internal subset between brackets.
pub open spec fn doctype_header(v: ParserView, t: Token, s: DoctypeSubstate) -> (ParserView, Option<Polled>) {
    let unexpected = fails(v, SyntaxError::UnexpectedToken(t).text());
    let limit = fails(v, SyntaxError::ExceededConfiguredLimit.text());
    match s {
        DoctypeSubstate::BeforeName => match t {
            Token::Character(c) => if is_whitespace(c) {
                (v, None)
            } else if is_name_start(c) {
                dtd(
                    ParserView { data: DataView { doctype_name: v.data.doctype_name.push(c), ..v.data }, ..v },
                    DoctypeSubstate::Name,
                )
            } else {
                unexpected
            },
            _ => unexpected,
        },
        DoctypeSubstate::Name => match t {
            Token::Character(c) => if is_whitespace(c) {
                dtd(v, DoctypeSubstate::AfterName)
            } else if c == '[' {
                dtd(v, DoctypeSubstate::Outside)
            } else if is_name(c) {
                if v.data.doctype_name.len() > v.config.max_name_length {
                    limit
                } else {
                    (ParserView { data: DataView { doctype_name: v.data.doctype_name.push(c), ..v.data }, ..v }, None)
                }
            } else {
                unexpected
            },
            Token::TagEnd => doctype_ended(v),
            _ => unexpected,
        },
        DoctypeSubstate::AfterName => match t {
            Token::Character(c) => if is_whitespace(c) {
                (v, None)
            } else if c == '[' {
                dtd(v, DoctypeSubstate::Outside)
            } else if c == 'S' || c == 'P' {
                dtd(ParserView { buf: seq![c], ..v }, DoctypeSubstate::Keyword)
            } else {
                unexpected
            },
            Token::TagEnd => doctype_ended(v),
            _ => unexpected,
        },
        DoctypeSubstate::Keyword => match t {
            Token::Character(c) => if 'A' <= c && c <= 'Z' {
                if v.buf.len() > v.config.max_name_length {
                    limit
                } else {
                    (ParserView { buf: v.buf.push(c), ..v }, None)
                }
            } else if is_whitespace(c) {
                if v.buf == "SYSTEM"@ {
                    dtd(ParserView { buf: Seq::empty(), ..v }, DoctypeSubstate::BeforeSystemId)
                } else if v.buf == "PUBLIC"@ {
                    dtd(ParserView { buf: Seq::empty(), ..v }, DoctypeSubstate::BeforePublicId)
                } else {
                    fails(v, "Unknown markup declaration: "@ + v.buf)
                }
            } else {
                unexpected
            },
            _ => unexpected,
        },
        DoctypeSubstate::BeforePublicId | DoctypeSubstate::BeforeSystemId => if is_space(t) {
            (v, None)
        } else if quote_token(t) is Some {
            dtd(
                ParserView { data: DataView { quote: quote_token(t), ..v.data }, buf: Seq::empty(), ..v },
                if s == DoctypeSubstate::BeforePublicId { DoctypeSubstate::PublicId } else { DoctypeSubstate::SystemId },
            )
        } else if s == DoctypeSubstate::BeforeSystemId && t == Token::TagEnd {
            doctype_ended(v)
        } else if s == DoctypeSubstate::BeforeSystemId && t == Token::Character('[') {
            dtd(v, DoctypeSubstate::Outside)
        } else {
            unexpected
        },
        DoctypeSubstate::PublicId | DoctypeSubstate::SystemId => if quote_token(t) is Some && quote_token(t)
            == v.data.quote {
            if s == DoctypeSubstate::PublicId {
                dtd(
                    ParserView {
                        data: DataView { quote: None, public_id: Some(v.buf), ..v.data },
                        buf: Seq::empty(),
                        ..v
                    },
                    DoctypeSubstate::BeforeSystemId,
                )
            } else {
                dtd(
                    ParserView {
                        data: DataView { quote: None, system_id: Some(v.buf), ..v.data },
                        buf: Seq::empty(),
                        ..v
                    },
                    DoctypeSubstate::AfterIds,
                )
            }
        } else if v.buf.len() > v.config.max_data_length {
            limit
        } else {
            (ParserView { buf: v.buf + t.text(), ..v }, None)
        },
        DoctypeSubstate::AfterIds | DoctypeSubstate::AfterSubset => if is_space(t) {
            (v, None)
        } else if t == Token::TagEnd {
            doctype_ended(v)
        } else if s == DoctypeSubstate::AfterIds && t == Token::Character('[') {
            dtd(v, DoctypeSubstate::Outside)
        } else {
            unexpected
        },
        _ => (v, None),
    }
}

/// A token of the internal subset between declarations, and of what is
/// skipped there: comments, processing instructions, quoted strings, and the
/// declarations that are not entity declarations.
pub open spec fn doctype_subset(v: ParserView, t: Token, s: DoctypeSubstate) -> (ParserView, Option<Polled>) {
    let unexpected = fails(v, SyntaxError::UnexpectedToken(t).text());
    match s {
        DoctypeSubstate::Outside => match t {
            Token::Character(c) => if c == ']' {
                dtd(v, DoctypeSubstate::AfterSubset)
            } else if c == '%' {
                dtd(
                    ParserView { data: DataView { ref_data: seq!['%'], ..v.data }, ..v },
                    DoctypeSubstate::PEReferenceInDtd,
                )
            } else if is_whitespace(c) {
                (v, None)
            } else {
                unexpected
            },
            Token::MarkupDeclarationStart => dtd(ParserView { buf: Seq::empty(), ..v }, DoctypeSubstate::InsideName),
            Token::CommentStart => dtd(v, DoctypeSubstate::Comment),
            Token::ProcessingInstructionStart => dtd(v, DoctypeSubstate::ProcessingInstruction),
            Token::SingleQuote | Token::DoubleQuote => dtd(
                ParserView { data: DataView { quote: quote_token(t), ..v.data }, ..v },
                DoctypeSubstate::String,
            ),
            _ => unexpected,
        },
        DoctypeSubstate::String => if quote_token(t) is Some && quote_token(t) == v.data.quote {
            dtd(ParserView { data: DataView { quote: None, ..v.data }, ..v }, DoctypeSubstate::Outside)
        } else {
            (v, None)
        },
        DoctypeSubstate::Comment => if t == Token::CommentEnd {
            dtd(v, DoctypeSubstate::Outside)
        } else {
            (v, None)
        },
        DoctypeSubstate::ProcessingInstruction => if t == Token::ProcessingInstructionEnd {
            dtd(v, DoctypeSubstate::Outside)
        } else {
            (v, None)
        },
        DoctypeSubstate::SkipDeclaration => if t == Token::TagEnd {
            dtd(v, DoctypeSubstate::Outside)
        } else {
            (v, None)
        },
        _ => (v, None),
    }
}

/// A token of a markup declaration up to the value of an entity: the keyword
/// of the declaration, and the name of an entity.
pub open spec fn doctype_declaration(v: ParserView, t: Token, s: DoctypeSubstate) -> (ParserView, Option<Polled>) {
    let unexpected = fails(v, SyntaxError::UnexpectedToken(t).text());
    let in_entity = fails(v, SyntaxError::UnexpectedTokenInEntity(t).text());
    let limit = fails(v, SyntaxError::ExceededConfiguredLimit.text());
    let named = |c: char| ParserView { data: DataView { name: v.data.name.push(c), ..v.data }, ..v };
    match s {
        DoctypeSubstate::InsideName => match t {
            Token::Character(c) => if 'A' <= c && c <= 'Z' {
                if v.buf.len() > v.config.max_name_length {
                    limit
                } else {
                    (ParserView { buf: v.buf.push(c), ..v }, None)
                }
            } else if is_whitespace(c) {
                let w = ParserView { buf: Seq::empty(), ..v };
                if v.buf == "ENTITY"@ {
                    dtd(w, DoctypeSubstate::BeforeEntityName)
                } else if v.buf == "NOTATION"@ || v.buf == "ELEMENT"@ || v.buf == "ATTLIST"@ {
                    dtd(w, DoctypeSubstate::SkipDeclaration)
                } else {
                    fails(v, "Unknown markup declaration: "@ + v.buf)
                }
            } else {
                unexpected
            },
            _ => unexpected,
        },
        DoctypeSubstate::BeforeEntityName => {
            let w = ParserView { data: DataView { name: Seq::empty(), ..v.data }, ..v };
            match t {
                Token::Character(c) => if is_whitespace(c) {
                    (w, None)
                } else if c == '%' {
                    dtd(
                        ParserView { data: DataView { name: seq!['%'], ..v.data }, ..v },
                        DoctypeSubstate::PEReferenceDefinitionStart,
                    )
                } else if is_name_start(c) {
                    dtd(ParserView { data: DataView { name: seq![c], ..v.data }, ..v }, DoctypeSubstate::EntityName)
                } else {
                    in_entity
                },
                _ => in_entity,
            }
        },
        DoctypeSubstate::EntityName | DoctypeSubstate::PEReferenceDefinition => match t {
            Token::Character(c) => if is_whitespace(c) {
                dtd(v, DoctypeSubstate::BeforeEntityValue)
            } else if is_name(c) {
                if v.data.name.len() > v.config.max_name_length {
                    limit
                } else {
                    (named(c), None)
                }
            } else {
                in_entity
            },
            _ => in_entity,
        },
        DoctypeSubstate::PEReferenceDefinitionStart => match t {
            Token::Character(c) => if is_whitespace(c) {
                (v, None)
            } else if is_name_start(c) {
                dtd(named(c), DoctypeSubstate::PEReferenceDefinition)
            } else {
                in_entity
            },
            _ => in_entity,
        },
        DoctypeSubstate::BeforeEntityValue => {
            let w = ParserView { buf: Seq::empty(), ..v };
            match t {
                Token::Character(c) => if is_whitespace(c) {
                    (w, None)
                } else if c == 'S' || c == 'P' {
                    dtd(
                        ParserView {
                            entities: defined(v.entities, v.data.name, Seq::empty()),
                            data: DataView { name: Seq::empty(), ..v.data },
                            ..w
                        },
                        DoctypeSubstate::SkipDeclaration,
                    )
                } else {
                    in_entity
                },
                Token::SingleQuote | Token::DoubleQuote => dtd(
                    ParserView { data: DataView { quote: quote_token(t), ..v.data }, ..w },
                    DoctypeSubstate::EntityValue,
                ),
                _ => in_entity,
            }
        },
        _ => (v, None),
    }
}

/// A token of the value of an entity, or of a reference to a parameter
/// entity.
///
/// Within the value a numeric reference is replaced by its character and a
/// reference to a parameter entity by the text of that entity; a reference to
/// another entity stays as it is.  The first declaration of a name counts.
pub open spec fn doctype_value(v: ParserView, t: Token, s: DoctypeSubstate) -> (ParserView, Option<Polled>) {
    let in_entity = fails(v, SyntaxError::UnexpectedTokenInEntity(t).text());
    let referenced = |c: char| ParserView { data: DataView { ref_data: v.data.ref_data.push(c), ..v.data }, ..v };
    let cleared = ParserView { data: DataView { ref_data: Seq::empty(), ..v.data }, ..v };
    match s {
        DoctypeSubstate::EntityValue => match t {
            Token::SingleQuote | Token::DoubleQuote => if quote_token(t) == v.data.quote {
                dtd(
                    ParserView {
                        entities: defined(v.entities, v.data.name, v.buf),
                        data: DataView { quote: None, name: Seq::empty(), ..v.data },
                        buf: Seq::empty(),
                        ..v
                    },
                    DoctypeSubstate::SkipDeclaration,
                )
            } else {
                (ParserView { buf: v.buf + t.data_text(), ..v }, None)
            },
            Token::ReferenceStart => dtd(cleared, DoctypeSubstate::NumericReferenceStart),
            Token::Character(c) => if c == '&' {
                dtd(cleared, DoctypeSubstate::NumericReferenceStart)
            } else if c == '%' {
                dtd(
                    ParserView { data: DataView { ref_data: seq!['%'], ..v.data }, ..v },
                    DoctypeSubstate::PEReferenceInValue,
                )
            } else if !valid_char(v, c) {
                fails(v, SyntaxError::InvalidCharacterEntity(c as u32).text())
            } else if v.buf.len() > v.config.max_data_length {
                fails(v, SyntaxError::ExceededConfiguredLimit.text())
            } else {
                (ParserView { buf: v.buf.push(c), ..v }, None)
            },
            _ => in_entity,
        },
        DoctypeSubstate::PEReferenceInDtd => match t {
            Token::Character(c) => if is_name(c) {
                (referenced(c), None)
            } else {
                in_entity
            },
            Token::ReferenceEnd => match entity_at(v.entities, v.data.ref_data) {
                Some(k) => match reparsed(v.lexer, v.entities[k].1).1 {
                    None => dtd(
                        ParserView { lexer: reparsed(v.lexer, v.entities[k].1).0, ..cleared },
                        DoctypeSubstate::Outside,
                    ),
                    Some(_) => fails(cleared, SyntaxError::EntityTooBig.text()),
                },
                None => fails(cleared, "Undefined entity: "@ + v.data.ref_data),
            },
            _ => in_entity,
        },
        DoctypeSubstate::PEReferenceInValue => if t == Token::ReferenceEnd || t == Token::Character(';') {
            match entity_at(v.entities, v.data.ref_data) {
                Some(k) => dtd(ParserView { buf: v.buf + v.entities[k].1, ..cleared }, DoctypeSubstate::EntityValue),
                None => fails(cleared, "Undefined entity: "@ + v.data.ref_data),
            }
        } else if t matches Token::Character(c) && is_name(c) {
            (referenced(t->Character_0), None)
        } else {
            in_entity
        },
        DoctypeSubstate::NumericReferenceStart => match t {
            Token::Character(c) => if c == '#' {
                dtd(referenced('#'), DoctypeSubstate::NumericReference)
            } else if !valid_char(v, c) {
                fails(v, SyntaxError::InvalidCharacterEntity(c as u32).text())
            } else {
                dtd(ParserView { buf: v.buf.push('&').push(c), ..v }, DoctypeSubstate::EntityValue)
            },
            _ => in_entity,
        },
        DoctypeSubstate::NumericReference => if t == Token::ReferenceEnd || t == Token::Character(';') {
            if v.data.ref_data.len() == 0 {
                fails(cleared, SyntaxError::EmptyEntity.text())
            } else {
                match numeric(v.data.ref_data, version11(v)) {
                    Ok(c) => dtd(ParserView { buf: v.buf.push(c), ..cleared }, DoctypeSubstate::EntityValue),
                    Err(message) => fails(cleared, message),
                }
            }
        } else if t matches Token::Character(c) {
            if !valid_char(v, t->Character_0) {
                fails(v, SyntaxError::InvalidCharacterEntity(t->Character_0 as u32).text())
            } else {
                (referenced(t->Character_0), None)
            }
        } else {
            in_entity
        },
        _ => (v, None),
    }
}

/// A token within a document type declaration.  Every token is taken into
/// the text of the declaration, which must not be longer than the limit for
/// data.
pub open spec fn inside_doctype(v: ParserView, t: Token, s: DoctypeSubstate) -> (ParserView, Option<Polled>) {
    if v.data.doctype.len() > v.config.max_data_length {
        fails(v, SyntaxError::ExceededConfiguredLimit.text())
    } else {
        let w = ParserView { data: DataView { doctype: v.data.doctype + t.text(), ..v.data }, ..v };
        match s {
            DoctypeSubstate::BeforeName | DoctypeSubstate::Name | DoctypeSubstate::AfterName | DoctypeSubstate::Keyword
            | DoctypeSubstate::BeforePublicId | DoctypeSubstate::BeforeSystemId | DoctypeSubstate::PublicId
            | DoctypeSubstate::SystemId | DoctypeSubstate::AfterIds | DoctypeSubstate::AfterSubset => doctype_header(
                w,
                t,
                s,
            ),
            DoctypeSubstate::Outside | DoctypeSubstate::String | DoctypeSubstate::Comment
            | DoctypeSubstate::ProcessingInstruction | DoctypeSubstate::SkipDeclaration => doctype_subset(w, t, s),
            DoctypeSubstate::InsideName | DoctypeSubstate::BeforeEntityName | DoctypeSubstate::EntityName
            | DoctypeSubstate::PEReferenceDefinition | DoctypeSubstate::PEReferenceDefinitionStart
            | DoctypeSubstate::BeforeEntityValue => doctype_declaration(w, t, s),
            DoctypeSubstate::EntityValue | DoctypeSubstate::PEReferenceInDtd | DoctypeSubstate::PEReferenceInValue
            | DoctypeSubstate::NumericReferenceStart | DoctypeSubstate::NumericReference => doctype_value(w, t, s),
        }
    }
}

/// What a token does to the parser, and what the parser gives for it, if
/// anything: the token is handled as the state of the parser says.
#[verifier::opaque]
pub open spec fn handled(v: ParserView, t: Token) -> (ParserView, Option<Polled>) {
    match v.st {
        State::OutsideTag => outside_tag(v, t),
        State::InsideOpeningTag(s) => inside_opening_tag(v, t, s),
        State::InsideClosingTag(s) => inside_closing_tag_name(v, t, s),
        State::InsideReference => inside_reference(v, t),
        State::InsideComment => inside_comment(v, t),
        State::InsideCData => inside_cdata(v, t),
        State::InsideProcessingInstruction(s) => inside_processing_instruction(v, t, s),
        State::InsideDoctype(s) => inside_doctype(v, t, s),
        State::InsideDeclaration(s) => inside_declaration(v, t, s),
        State::DocumentStart => document_start(v, t),
    }
}

/// What the end of the input means for the document.
///
/// The document ends well where its root element has been closed.  Else the
/// end is an error: in streaming mode one of the kind `UnexpectedEof`, which
/// passes; otherwise one that says what is missing, and that stays.
#[verifier::opaque]
pub open spec fn at_eof(v: ParserView) -> (ParserView, Polled) {
    let w = v;
    if v.est.len() == 0 && v.encountered == Encountered::Element && v.st == State::OutsideTag {
        (ParserView { final_result: Some(Polled::Event(EventView::EndDocument)), ..w }, Polled::Event(EventView::EndDocument))
    } else if v.config.ignore_end_of_stream {
        (
            ParserView { lexer: LexerView { eof_handled: false, ..w.lexer }, ..w },
            Polled::Failure(v.lexer.pos, KindView::UnexpectedEof),
        )
    } else {
        let failure = Polled::Failure(
            v.lexer.pos,
            KindView::Syntax(
                if v.est.len() > 0 {
                    SyntaxError::UnbalancedRootElement.text()
                } else if v.encountered != Encountered::Element {
                    SyntaxError::NoRootElement.text()
                } else {
                    SyntaxError::UnexpectedEof.text()
                },
            ),
        );
        (ParserView { final_result: Some(failure), ..w }, failure)
    }
}

/// What the parser gives for a scan of the lexer that ended in an error.
pub open spec fn scan_failure(scan: Scan) -> Polled {
    match scan {
        Scan::Fault(e, pos) => Polled::Failure(pos, KindView::Syntax(e.text())),
        Scan::Unreadable(e) => Polled::Failure(
            TextPosition { row: 0, column: 0 },
            crate::reader::error::ErrorKind::of_read(e),
        ),
        Scan::Token(_) => Polled::Failure(TextPosition { row: 0, column: 0 }, KindView::Syntax(Seq::empty())),
    }
}

/// Reads one token from the lexer and handles it.  The parser afterwards,
/// the bytes that are left, and what the parser gives, if anything.
///
/// An error of a handler ends the parser.  So does an error of the lexer,
/// except that in streaming mode an error at the end of the input passes and
/// is given as one of the kind `UnexpectedEof`.
#[verifier::opaque]
pub open spec fn pulled_once(v: ParserView, bytes: Seq<u8>) -> (ParserView, Seq<u8>, Option<Polled>) {
    let (lexer, rest, scan) = crate::reader::lexer::next(v.lexer, bytes);
    let read = ParserView { lexer, ..v };
    match scan {
        Scan::Token(Token::Eof) => (at_eof(advanced(read)).0, rest, Some(at_eof(advanced(read)).1)),
        Scan::Token(t) => {
            let (w, out) = handled(read, t);
            match out {
                Some(Polled::Event(e)) => (advanced(w), rest, Some(Polled::Event(e))),
                Some(failure) => (ParserView { final_result: Some(failure), ..advanced(w) }, rest, Some(failure)),
                None => (w, rest, None),
            }
        },
        other => {
            let failure = scan_failure(other);
            if v.config.ignore_end_of_stream && (lexer.eof_handled || (failure matches Polled::Failure(_, kind)
                && kind is UnexpectedEof)) {
                (
                    ParserView { lexer: LexerView { eof_handled: false, ..lexer }, ..read },
                    rest,
                    Some(Polled::Failure(failure->Failure_0, KindView::UnexpectedEof)),
                )
            } else {
                (ParserView { final_result: Some(failure), ..read }, rest, Some(failure))
            }
        },
    }
}

/// Reads tokens from the lexer and handles them until the parser gives an
/// event or an error.  The parser afterwards, the bytes that are left, and
/// what it gives.
pub open spec fn pulled(v: ParserView, bytes: Seq<u8>) -> (ParserView, Seq<u8>, Polled)
    decreases bytes.len(), v.lexer.phase(), v.lexer.budget(), v.lexer.weight(),
{
    let (w, rest, out) = pulled_once(v, bytes);
    match out {
        Some(given) => (w, rest, given),
        None => if rest.len() < bytes.len() || (rest.len() == bytes.len() && w.lexer.below(v.lexer)) {
            pulled(w, rest)
        } else {
            (w, rest, Polled::Event(EventView::EndDocument))
        },
    }
}

/// One poll: what a parser in state `v` gives with `bytes` in its source,
/// the parser afterwards, and the bytes that are left.
///
/// A parser that has ended gives what it ended with.  An event that waits
/// is given next; where it is the end of an empty element, the scope of the
/// element is closed.  Otherwise tokens are read until there is an event or
/// an error.
pub open spec fn parsed(v: ParserView, bytes: Seq<u8>) -> (ParserView, Seq<u8>, Polled) {
    match v.final_result {
        Some(ended) => (v, bytes, ended),
        None => match v.next_event {
            Some(event) => (
                ParserView {
                    next_event: None,
                    frames: if event is EndElement && v.frames.len() > 0 { v.frames.drop_last() } else { v.frames },
                    ..v
                },
                bytes,
                Polled::Event(event),
            ),
            None => pulled(v, bytes),
        },
    }
}

/// The names of the elements that are open, outermost first: those whose
/// start has been reported and whose end has not.
pub open spec fn open_elements(v: ParserView) -> Seq<NameView> {
    match v.next_event {
        Some(EventView::EndElement { name }) => v.est.push(name),
        _ => v.est,
    }
}

/// The namespace scopes of the document so far: the frames of the parser but
/// the one of a start tag that is still being read.
pub open spec fn scopes(v: ParserView) -> Seq<Bindings> {
    if v.st is InsideOpeningTag || (v.st is InsideReference && v.state_after_reference is InsideOpeningTag) {
        v.frames.drop_last()
    } else {
        v.frames
    }
}

/// Whether a parser `w` with `left` bytes in its source is nearer to the end
/// of its input than a parser `v` with `had` bytes: it has fewer bytes left,
/// or else its lexer is below the other's, or else it holds no event that
/// waits where the other holds one.
pub open spec fn nearer(w: ParserView, left: nat, v: ParserView, had: nat) -> bool {
    left < had || (left == had && (w.lexer.below(v.lexer) || (w.lexer.phase() == v.lexer.phase() && w.lexer.budget()
        == v.lexer.budget() && w.lexer.weight() == v.lexer.weight() && w.next_event is None && v.next_event is Some)))
}

/// Polls until `depth` more elements have ended than have started: the
/// parser afterwards, the bytes that are left, and the error that stopped the
/// polling, if one did.
pub open spec fn skipped(v: ParserView, bytes: Seq<u8>, depth: nat) -> (ParserView, Seq<u8>, Option<Polled>)
    decreases bytes.len(), v.lexer.phase(), v.lexer.budget(), v.lexer.weight(), (if v.next_event is Some {
        1nat
    } else {
        0nat
    }),
{
    if depth == 0 {
        (v, bytes, None)
    } else {
        let (w, rest, given) = parsed(v, bytes);
        match given {
            Polled::Failure(..) => (w, rest, Some(given)),
            Polled::Event(e) => if e is EndDocument || !nearer(w, rest.len(), v, bytes.len()) {
                (w, rest, None)
            } else {
                skipped(
                    w,
                    rest,
                    if e is StartElement {
                        depth + 1
                    } else if e is EndElement {
                        (depth - 1) as nat
                    } else {
                        depth
                    },
                )
            },
        }
    }
}

} // verus!
