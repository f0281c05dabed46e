//! The lexer: characters in, tokens out.
//!
//! The lexer is a finite automaton over characters.  Most of its states stand
//! for the part of a multi-character token that has been read so far.

use std::collections::VecDeque;
use vstd::prelude::*;
use vstd::string::*;
use crate::common::TextPosition;
use crate::reader::config::ParserConfig;
use crate::reader::error::{Error, SyntaxError};
use crate::text::{push_char, push_str_chars, str_chars, string_from_chars};
use crate::util::{read, ByteSource, CharReadError, CharReader, Encoding, Outcome};

verus! {

/// A lexeme of an XML document.
#[derive(Copy, Clone, PartialEq, Eq, Structural, Debug)]
pub enum Token {
    /// `<?`
    ProcessingInstructionStart,
    /// `?>`
    ProcessingInstructionEnd,
    /// `<!DOCTYPE`
    DoctypeStart,
    /// `<`
    OpeningTagStart,
    /// `</`
    ClosingTagStart,
    /// `>`
    TagEnd,
    /// `/>`
    EmptyTagEnd,
    /// `<!--`
    CommentStart,
    /// `-->`
    CommentEnd,
    /// Any character that is not part of another token.
    Character(char),
    /// `=`
    EqualsSign,
    /// `'`
    SingleQuote,
    /// `"`
    DoubleQuote,
    /// `<![CDATA[`
    CDataStart,
    /// `]]>`
    CDataEnd,
    /// `&`
    ReferenceStart,
    /// `;`
    ReferenceEnd,
    /// `<!` of a markup declaration such as `<!ENTITY`
    MarkupDeclarationStart,
    /// The end of the input.
    Eof,
}

impl Token {
    /// The fixed text of a token that has one and can stand in character
    /// data.
    pub open spec fn static_text(self) -> Option<Seq<char>> {
        match self {
            Token::OpeningTagStart => Some("<"@),
            Token::ProcessingInstructionStart => Some("<?"@),
            Token::DoctypeStart => Some("<!DOCTYPE"@),
            Token::ClosingTagStart => Some("</"@),
            Token::CommentStart => Some("<!--"@),
            Token::CDataStart => Some("<![CDATA["@),
            Token::TagEnd => Some(">"@),
            Token::EmptyTagEnd => Some("/>"@),
            Token::ProcessingInstructionEnd => Some("?>"@),
            Token::CommentEnd => Some("-->"@),
            Token::CDataEnd => Some("]]>"@),
            Token::ReferenceStart => Some("&"@),
            Token::ReferenceEnd => Some(";"@),
            Token::EqualsSign => Some("="@),
            Token::SingleQuote => Some("'"@),
            Token::DoubleQuote => Some("\""@),
            _ => None,
        }
    }

    /// The characters that the token adds to character data: the character
    /// itself, or the fixed text, or nothing.
    pub open spec fn data_text(self) -> Seq<char> {
        match self {
            Token::Character(c) => seq![c],
            _ => match self.static_text() {
                Some(s) => s,
                None => Seq::empty(),
            },
        }
    }

    /// The token as it is shown in a message.
    pub open spec fn text(self) -> Seq<char> {
        match self {
            Token::MarkupDeclarationStart => "<!"@,
            _ => self.data_text(),
        }
    }

    /// The fixed text of the token, where it has one and can stand in
    /// character data.
    pub fn as_static_str(self) -> (r: Option<&'static str>)
        ensures
            match r {
                Some(s) => self.static_text() == Some(s@),
                None => self.static_text() is None,
            },
    {
        match self {
            Token::OpeningTagStart => Some("<"),
            Token::ProcessingInstructionStart => Some("<?"),
            Token::DoctypeStart => Some("<!DOCTYPE"),
            Token::ClosingTagStart => Some("</"),
            Token::CommentStart => Some("<!--"),
            Token::CDataStart => Some("<![CDATA["),
            Token::TagEnd => Some(">"),
            Token::EmptyTagEnd => Some("/>"),
            Token::ProcessingInstructionEnd => Some("?>"),
            Token::CommentEnd => Some("-->"),
            Token::CDataEnd => Some("]]>"),
            Token::ReferenceStart => Some("&"),
            Token::ReferenceEnd => Some(";"),
            Token::EqualsSign => Some("="),
            Token::SingleQuote => Some("'"),
            Token::DoubleQuote => Some("\""),
            _ => None,
        }
    }

    /// Appends the token to character data held in a string.
    pub fn push_to_string(self, target: &mut String)
        ensures
            final(target)@ == old(target)@ + self.data_text(),
    {
        match self {
            Token::Character(c) => {
                push_char(target, c);
            },
            _ => {
                if let Some(s) = self.as_static_str() {
                    target.append(s);
                }
            },
        }
    }

    /// Appends the token to character data held as characters.
    pub fn push_to_chars(self, target: &mut Vec<char>)
        ensures
            final(target)@ == old(target)@ + self.data_text(),
    {
        match self {
            Token::Character(c) => {
                target.push(c);
            },
            _ => {
                if let Some(s) = self.as_static_str() {
                    push_str_chars(target, s);
                }
            },
        }
    }

    /// Appends the token, as it is shown in a message, to `target`.
    pub fn push_text(self, target: &mut Vec<char>)
        ensures
            final(target)@ == old(target)@ + self.text(),
    {
        match self {
            Token::MarkupDeclarationStart => {
                push_str_chars(target, "<!");
            },
            _ => {
                self.push_to_chars(target);
            },
        }
    }

    /// The token as it is shown in a message.
    pub fn to_string(self) -> (r: String)
        ensures
            r@ == self.text(),
    {
        let mut v: Vec<char> = Vec::new();
        self.push_text(&mut v);
        string_from_chars(&v)
    }
}


/// The states of the lexer.
#[derive(Copy, Clone, PartialEq, Eq, Structural, Debug)]
pub enum State {
    /// Between tokens.
    Normal,
    /// After `<`.
    TagStarted,
    /// After `<!`.
    CommentOrCDataOrDoctypeStarted,
    /// After `<!-`.
    CommentStarted,
    /// After `<!D` up to `<!DOCTYP`.
    DoctypeStarted(DoctypeStartedSubstate),
    /// Within a markup declaration such as `<!ELEMENT`.
    InsideMarkupDeclaration,
    /// Within a document type declaration.
    InsideDoctype,
    /// After `<![` up to `<![CDATA`.
    CDataStarted(CDataStartedSubstate),
    /// After `?` within a processing instruction.
    ProcessingInstructionClosing,
    /// After `/`.
    EmptyTagClosing,
    /// After `-` or `--` within a comment.
    CommentClosing(ClosingSubstate),
    /// After `]` or `]]` within a CDATA section.
    CDataClosing(ClosingSubstate),
    /// After `]` or `]]` outside a CDATA section.
    InvalidCDataClosing(ClosingSubstate),
    /// Within a comment.
    InsideComment,
    /// Within a CDATA section.
    InsideCdata,
    /// Within a processing instruction.
    InsideProcessingInstruction,
    /// Within a quoted string of a markup declaration.
    InsideMarkupDeclarationQuotedString(QuoteStyle),
}

/// The quote that opened a string.
#[derive(Copy, Clone, PartialEq, Eq, Structural, Debug)]
pub enum QuoteStyle {
    Single,
    Double,
}

/// How much of a two-character closing sequence has been read.
#[derive(Copy, Clone, PartialEq, Eq, Structural, Debug)]
pub enum ClosingSubstate {
    First,
    Second,
}

/// How much of `<!DOCTYPE` has been read.
#[derive(Copy, Clone, PartialEq, Eq, Structural, Debug)]
pub enum DoctypeStartedSubstate {
    D,
    DO,
    DOC,
    DOCT,
    DOCTY,
    DOCTYP,
}

/// How much of `<![CDATA[` has been read.
#[derive(Copy, Clone, PartialEq, Eq, Structural, Debug)]
pub enum CDataStartedSubstate {
    E,
    C,
    CD,
    CDA,
    CDAT,
    CDATA,
}

/// What one character does to the lexer in a given state.
pub ghost enum Step {
    /// No token yet: the lexer moves to the given state.
    Shift(State),
    /// A token.  The lexer moves to the given state and puts the given
    /// characters back in front of its input; where the flag is set, the new
    /// state also becomes the state to return to after markup.
    Emit(State, Token, Seq<char>, bool),
    /// The character cannot follow the given text.
    Reject(&'static str),
}

/// A token that leaves the state as it is.
pub open spec fn plain(st: State, token: Token) -> Step {
    Step::Emit(st, token, Seq::empty(), false)
}

/// The transition table of the lexer: what character `c` does in state `st`,
/// where `normal` is the state to return to after markup (`Normal`, or
/// `InsideDoctype` within a document type declaration).
pub open spec fn step(st: State, normal: State, c: char) -> Step {
    match st {
        State::Normal => if c == '<' {
            Step::Shift(State::TagStarted)
        } else if c == '>' {
            plain(st, Token::TagEnd)
        } else if c == '/' {
            Step::Shift(State::EmptyTagClosing)
        } else if c == '=' {
            plain(st, Token::EqualsSign)
        } else if c == '"' {
            plain(st, Token::DoubleQuote)
        } else if c == '\'' {
            plain(st, Token::SingleQuote)
        } else if c == ']' {
            Step::Shift(State::InvalidCDataClosing(ClosingSubstate::First))
        } else if c == '&' {
            plain(st, Token::ReferenceStart)
        } else if c == ';' {
            plain(st, Token::ReferenceEnd)
        } else {
            plain(st, Token::Character(c))
        },
        State::InsideCdata => if c == ']' {
            Step::Shift(State::CDataClosing(ClosingSubstate::First))
        } else {
            plain(st, Token::Character(c))
        },
        State::InsideProcessingInstruction => if c == '?' {
            Step::Shift(State::ProcessingInstructionClosing)
        } else if c == '<' {
            plain(st, Token::OpeningTagStart)
        } else if c == '>' {
            plain(st, Token::TagEnd)
        } else if c == '/' {
            plain(st, Token::ClosingTagStart)
        } else if c == '=' {
            plain(st, Token::EqualsSign)
        } else if c == '"' {
            plain(st, Token::DoubleQuote)
        } else if c == '\'' {
            plain(st, Token::SingleQuote)
        } else if c == '&' {
            plain(st, Token::ReferenceStart)
        } else if c == ';' {
            plain(st, Token::ReferenceEnd)
        } else {
            plain(st, Token::Character(c))
        },
        State::InsideComment => if c == '-' {
            Step::Shift(State::CommentClosing(ClosingSubstate::First))
        } else {
            plain(st, Token::Character(c))
        },
        State::TagStarted => if c == '?' {
            Step::Emit(State::InsideProcessingInstruction, Token::ProcessingInstructionStart, Seq::empty(), false)
        } else if c == '/' {
            Step::Emit(normal, Token::ClosingTagStart, Seq::empty(), false)
        } else if c == '!' {
            Step::Shift(State::CommentOrCDataOrDoctypeStarted)
        } else if crate::common::is_whitespace(c) || crate::common::is_name_start(c) {
            Step::Emit(normal, Token::OpeningTagStart, seq![c], false)
        } else {
            Step::Reject("<")
        },
        State::CommentOrCDataOrDoctypeStarted => if c == '-' {
            Step::Shift(State::CommentStarted)
        } else if c == '[' {
            Step::Shift(State::CDataStarted(CDataStartedSubstate::E))
        } else if c == 'D' {
            Step::Shift(State::DoctypeStarted(DoctypeStartedSubstate::D))
        } else if (c == 'E' || c == 'A' || c == 'N') && normal == State::InsideDoctype {
            Step::Emit(State::InsideMarkupDeclaration, Token::MarkupDeclarationStart, seq![c], false)
        } else {
            Step::Reject("<!")
        },
        State::CommentStarted => if c == '-' {
            Step::Emit(State::InsideComment, Token::CommentStart, Seq::empty(), false)
        } else {
            Step::Reject("<!-")
        },
        State::CDataStarted(sub) => match sub {
            CDataStartedSubstate::E => if c == 'C' {
                Step::Shift(State::CDataStarted(CDataStartedSubstate::C))
            } else {
                Step::Reject("<![")
            },
            CDataStartedSubstate::C => if c == 'D' {
                Step::Shift(State::CDataStarted(CDataStartedSubstate::CD))
            } else {
                Step::Reject("<![C")
            },
            CDataStartedSubstate::CD => if c == 'A' {
                Step::Shift(State::CDataStarted(CDataStartedSubstate::CDA))
            } else {
                Step::Reject("<![CD")
            },
            CDataStartedSubstate::CDA => if c == 'T' {
                Step::Shift(State::CDataStarted(CDataStartedSubstate::CDAT))
            } else {
                Step::Reject("<![CDA")
            },
            CDataStartedSubstate::CDAT => if c == 'A' {
                Step::Shift(State::CDataStarted(CDataStartedSubstate::CDATA))
            } else {
                Step::Reject("<![CDAT")
            },
            CDataStartedSubstate::CDATA => if c == '[' {
                Step::Emit(State::InsideCdata, Token::CDataStart, Seq::empty(), false)
            } else {
                Step::Reject("<![CDATA")
            },
        },
        State::InsideMarkupDeclaration => if c == '<' {
            Step::Reject("<!")
        } else if c == '>' {
            Step::Emit(normal, Token::TagEnd, Seq::empty(), false)
        } else if c == '&' {
            plain(st, Token::ReferenceStart)
        } else if c == ';' {
            plain(st, Token::ReferenceEnd)
        } else if c == '"' {
            Step::Emit(
                State::InsideMarkupDeclarationQuotedString(QuoteStyle::Double),
                Token::DoubleQuote,
                Seq::empty(),
                false,
            )
        } else if c == '\'' {
            Step::Emit(
                State::InsideMarkupDeclarationQuotedString(QuoteStyle::Single),
                Token::SingleQuote,
                Seq::empty(),
                false,
            )
        } else {
            plain(st, Token::Character(c))
        },
        State::InsideMarkupDeclarationQuotedString(q) => if c == '"' && q == QuoteStyle::Double {
            Step::Emit(State::InsideMarkupDeclaration, Token::DoubleQuote, Seq::empty(), false)
        } else if c == '\'' && q == QuoteStyle::Single {
            Step::Emit(State::InsideMarkupDeclaration, Token::SingleQuote, Seq::empty(), false)
        } else {
            plain(st, Token::Character(c))
        },
        State::DoctypeStarted(sub) => match sub {
            DoctypeStartedSubstate::D => if c == 'O' {
                Step::Shift(State::DoctypeStarted(DoctypeStartedSubstate::DO))
            } else {
                Step::Reject("<!D")
            },
            DoctypeStartedSubstate::DO => if c == 'C' {
                Step::Shift(State::DoctypeStarted(DoctypeStartedSubstate::DOC))
            } else {
                Step::Reject("<!DO")
            },
            DoctypeStartedSubstate::DOC => if c == 'T' {
                Step::Shift(State::DoctypeStarted(DoctypeStartedSubstate::DOCT))
            } else {
                Step::Reject("<!DOC")
            },
            DoctypeStartedSubstate::DOCT => if c == 'Y' {
                Step::Shift(State::DoctypeStarted(DoctypeStartedSubstate::DOCTY))
            } else {
                Step::Reject("<!DOCT")
            },
            DoctypeStartedSubstate::DOCTY => if c == 'P' {
                Step::Shift(State::DoctypeStarted(DoctypeStartedSubstate::DOCTYP))
            } else {
                Step::Reject("<!DOCTY")
            },
            DoctypeStartedSubstate::DOCTYP => if c == 'E' {
                Step::Emit(State::InsideDoctype, Token::DoctypeStart, Seq::empty(), true)
            } else {
                Step::Reject("<!DOCTYP")
            },
        },
        State::InsideDoctype => if c == '>' {
            Step::Emit(State::Normal, Token::TagEnd, Seq::empty(), true)
        } else if c == '<' {
            Step::Shift(State::TagStarted)
        } else if c == '&' {
            plain(st, Token::ReferenceStart)
        } else if c == ';' {
            plain(st, Token::ReferenceEnd)
        } else if c == '"' {
            plain(st, Token::DoubleQuote)
        } else if c == '\'' {
            plain(st, Token::SingleQuote)
        } else {
            plain(st, Token::Character(c))
        },
        State::ProcessingInstructionClosing => if c == '>' {
            Step::Emit(normal, Token::ProcessingInstructionEnd, Seq::empty(), false)
        } else {
            Step::Emit(State::InsideProcessingInstruction, Token::Character('?'), seq![c], false)
        },
        State::EmptyTagClosing => if c == '>' {
            Step::Emit(normal, Token::EmptyTagEnd, Seq::empty(), false)
        } else {
            Step::Emit(normal, Token::Character('/'), seq![c], false)
        },
        State::CommentClosing(sub) => match sub {
            ClosingSubstate::First => if c == '-' {
                Step::Shift(State::CommentClosing(ClosingSubstate::Second))
            } else {
                Step::Emit(State::InsideComment, Token::Character('-'), seq![c], false)
            },
            ClosingSubstate::Second => if c == '>' {
                Step::Emit(normal, Token::CommentEnd, Seq::empty(), false)
            } else {
                Step::Reject("--")
            },
        },
        State::CDataClosing(sub) => match sub {
            ClosingSubstate::First => if c == ']' {
                Step::Shift(State::CDataClosing(ClosingSubstate::Second))
            } else {
                Step::Emit(State::InsideCdata, Token::Character(']'), seq![c], false)
            },
            ClosingSubstate::Second => if c == '>' {
                Step::Emit(State::Normal, Token::CDataEnd, Seq::empty(), false)
            } else {
                Step::Emit(State::InsideCdata, Token::Character(']'), seq![']', c], false)
            },
        },
        State::InvalidCDataClosing(sub) => match sub {
            ClosingSubstate::First => if c == ']' {
                Step::Shift(State::InvalidCDataClosing(ClosingSubstate::Second))
            } else {
                Step::Emit(State::Normal, Token::Character(']'), seq![c], false)
            },
            ClosingSubstate::Second => if c == '>' {
                Step::Emit(normal, Token::CDataEnd, Seq::empty(), false)
            } else {
                Step::Emit(State::Normal, Token::Character(']'), seq![']', c], false)
            },
        },
    }
}

/// The lexer as a value: its state, the characters that wait to be read
/// again, its positions, flags and limits.
pub ghost struct LexerView {
    pub st: State,
    pub normal_state: State,
    pub queue: Seq<char>,
    pub pos: TextPosition,
    pub head_pos: TextPosition,
    pub inside_token: bool,
    pub eof_handled: bool,
    pub reparse_depth: u8,
    pub skip_errors: bool,
    pub reader: CharReader,
    pub max_depth: u8,
    pub max_length: usize,
}

/// What a scan for the next token ends with.
pub ghost enum Scan {
    /// A token.
    Token(Token),
    /// A syntax error at a position.
    Fault(SyntaxError, TextPosition),
    /// A character that could not be read.
    Unreadable(CharReadError),
}

/// Whether a result of the lexer is the given end of a scan.
pub open spec fn agrees(r: Result<Token, Error>, scan: Scan) -> bool {
    match scan {
        Scan::Token(t) => r == Ok::<Token, Error>(t),
        Scan::Fault(e, pos) => r is Err && r->Err_0.is_syntax(e.text(), pos),
        Scan::Unreadable(e) => r is Err && r->Err_0.pos == (TextPosition { row: 0, column: 0 }) && r->Err_0.kind@
            == crate::reader::error::ErrorKind::of_read(e),
    }
}

/// Whether a result of one step is the given end, or no end yet.
pub open spec fn step_agrees(r: Result<Option<Token>, Error>, scan: Option<Scan>) -> bool {
    match scan {
        None => r == Ok::<Option<Token>, Error>(None),
        Some(Scan::Token(t)) => r == Ok::<Option<Token>, Error>(Some(t)),
        Some(other) => r is Err && agrees(Err(r->Err_0), other),
    }
}

/// The lexer after character `c`, and the end of the scan if `c` ends it.
/// `v` is the lexer with `c` already taken from its input.
#[verifier::opaque]
pub open spec fn applied(v: LexerView, c: char) -> (LexerView, Option<Scan>) {
    match step(v.st, v.normal_state, c) {
        Step::Shift(st) => (LexerView { st, ..v }, None),
        Step::Emit(st, token, unread, set_normal) => (
            LexerView {
                st,
                normal_state: if set_normal { st } else { v.normal_state },
                queue: unread + v.queue,
                ..v
            },
            Some(Scan::Token(token)),
        ),
        Step::Reject(chunk) => if v.skip_errors {
            (
                LexerView {
                    st: State::Normal,
                    queue: if chunk@.len() > 0 { v.queue + chunk@.skip(1).push(c) } else { v.queue.push(c) },
                    ..v
                },
                Some(Scan::Token(Token::Character(if chunk@.len() > 0 { chunk@[0] } else { '\0' }))),
            )
        } else {
            (v, Some(Scan::Fault(SyntaxError::UnexpectedTokenBefore(chunk, c), v.pos)))
        },
    }
}

/// A character that ends no scan leaves the waiting characters as they are.
pub proof fn applied_shift(v: LexerView, c: char)
    ensures
        applied(v, c).1 is None ==> applied(v, c).0.queue == v.queue,
{
    reveal(applied);
}

/// The lexer at the end of the input, and what the scan ends with.
pub open spec fn ended(v: LexerView) -> (LexerView, Scan) {
    let w = LexerView { eof_handled: true, pos: v.head_pos, ..v };
    match v.st {
        State::InsideCdata | State::CDataClosing(_) => (w, Scan::Fault(SyntaxError::UnclosedCdata, w.pos)),
        State::EmptyTagClosing => (w, Scan::Token(Token::Character('/'))),
        State::CommentClosing(ClosingSubstate::First) => (w, Scan::Token(Token::Character('-'))),
        State::InvalidCDataClosing(ClosingSubstate::First) => (w, Scan::Token(Token::Character(']'))),
        State::InvalidCDataClosing(ClosingSubstate::Second) => (
            LexerView { eof_handled: false, st: State::Normal, queue: seq![']'] + w.queue, ..w },
            Scan::Token(Token::Character(']')),
        ),
        State::Normal => (w, Scan::Token(Token::Eof)),
        _ => (w, Scan::Fault(SyntaxError::UnexpectedEof, w.pos)),
    }
}

/// Scans the characters that wait to be read again.  `None` where they run
/// out before the scan ends.
pub open spec fn drained(v: LexerView) -> (LexerView, Option<Scan>)
    decreases v.queue.len(),
{
    if v.queue.len() == 0 {
        (v, None)
    } else {
        let (w, out) = applied(LexerView { queue: v.queue.drop_first(), ..v }, v.queue[0]);
        match out {
            Some(Scan::Token(t)) => (LexerView { inside_token: false, ..w }, out),
            Some(_) => (w, out),
            None => if w.queue.len() < v.queue.len() {
                drained(w)
            } else {
                (w, None)
            },
        }
    }
}

/// Scans characters decoded from `bytes`; gives the lexer afterwards, the
/// bytes that are left and the end of the scan.
pub open spec fn pulled(v: LexerView, bytes: Seq<u8>) -> (LexerView, Seq<u8>, Scan)
    decreases bytes.len(),
{
    let (reader, outcome, used) = read(v.reader, bytes);
    let rest = bytes.skip(used as int);
    let w = LexerView { reader, ..v };
    match outcome {
        Outcome::Char(c) => {
            let moved = LexerView {
                head_pos: if c == '\n' { w.head_pos.next_line() } else { w.head_pos.advanced(1) },
                ..w
            };
            let (x, out) = applied(moved, c);
            match out {
                Some(Scan::Token(t)) => (LexerView { inside_token: false, ..x }, rest, Scan::Token(t)),
                Some(other) => (x, rest, other),
                None => if 0 < used <= bytes.len() {
                    pulled(x, rest)
                } else {
                    (x, rest, Scan::Token(Token::Eof))
                },
            }
        },
        Outcome::End => (ended(w).0, rest, ended(w).1),
        Outcome::Partial => (w, rest, Scan::Unreadable(CharReadError::UnexpectedEof)),
        Outcome::Invalid(e) => (w, rest, Scan::Unreadable(e)),
    }
}

/// One call for the next token: the lexer afterwards, the bytes that are
/// left, and the token or error.
///
/// Once the end of the input has been reported, every call gives `Eof`.
/// Otherwise the characters that wait to be read again are scanned first; if
/// they run out, the count of entity expansions under way starts again at
/// zero and the scan goes on with characters decoded from `bytes`.
pub open spec fn next(v: LexerView, bytes: Seq<u8>) -> (LexerView, Seq<u8>, Scan) {
    if v.eof_handled {
        (v, bytes, Scan::Token(Token::Eof))
    } else {
        let start = if v.inside_token {
            v
        } else {
            LexerView { pos: v.head_pos, inside_token: true, ..v }
        };
        let (w, out) = drained(start);
        match out {
            Some(scan) => (w, bytes, scan),
            None => pulled(LexerView { reparse_depth: 0, ..w }, bytes),
        }
    }
}

/// The lexer after replacement text has been put in front of its input, and
/// whether that was allowed.
///
/// Empty text changes nothing.  Otherwise one more expansion is under way;
/// it is refused where that exceeds the allowed depth, or where more
/// characters than allowed already wait to be read.
pub open spec fn reparsed(v: LexerView, markup: Seq<char>) -> (LexerView, Option<Scan>) {
    let depth = if v.reparse_depth < u8::MAX { (v.reparse_depth + 1) as u8 } else { v.reparse_depth };
    if markup.len() == 0 {
        (v, None)
    } else if v.reparse_depth >= v.max_depth || v.queue.len() > v.max_length {
        (LexerView { reparse_depth: depth, ..v }, Some(Scan::Fault(SyntaxError::EntityTooBig, v.pos)))
    } else {
        (LexerView { reparse_depth: depth, eof_handled: false, queue: markup + v.queue, ..v }, None)
    }
}


/// A lexer for XML documents with a pull interface: each call of
/// `next_token` reads one token.
pub struct Lexer {
    st: State,
    reader: CharReader,
    pos: TextPosition,
    head_pos: TextPosition,
    char_queue: VecDeque<char>,
    /// The state to return to after markup (`InsideDoctype` within a
    /// document type declaration).
    normal_state: State,
    inside_token: bool,
    eof_handled: bool,
    reparse_depth: u8,
    skip_errors: bool,
    max_entity_expansion_depth: u8,
    max_entity_expansion_length: usize,
}

impl View for Lexer {
    type V = LexerView;

    closed spec fn view(&self) -> LexerView {
        LexerView {
            st: self.st,
            normal_state: self.normal_state,
            queue: self.char_queue@,
            pos: self.pos,
            head_pos: self.head_pos,
            inside_token: self.inside_token,
            eof_handled: self.eof_handled,
            reparse_depth: self.reparse_depth,
            skip_errors: self.skip_errors,
            reader: self.reader,
            max_depth: self.max_entity_expansion_depth,
            max_length: self.max_entity_expansion_length,
        }
    }
}

/// The lexer at the start of a document, with the given limits.
pub open spec fn initial(max_depth: u8, max_length: usize) -> LexerView {
    LexerView {
        st: State::Normal,
        normal_state: State::Normal,
        queue: Seq::empty(),
        pos: TextPosition { row: 0, column: 0 },
        head_pos: TextPosition { row: 0, column: 0 },
        inside_token: false,
        eof_handled: false,
        reparse_depth: 0,
        skip_errors: false,
        reader: CharReader { encoding: Encoding::Unknown, after_cr: false },
        max_depth,
        max_length,
    }
}

impl Lexer {
    /// A lexer at the start of a document, with the limits of `config`.
    pub fn new(config: &ParserConfig) -> (r: Lexer)
        ensures
            r@ == initial(config.max_entity_expansion_depth, config.max_entity_expansion_length),
    {
        Lexer {
            reader: CharReader::new(),
            pos: TextPosition::new(),
            head_pos: TextPosition::new(),
            char_queue: VecDeque::new(),
            st: State::Normal,
            normal_state: State::Normal,
            inside_token: false,
            eof_handled: false,
            reparse_depth: 0,
            skip_errors: false,
            max_entity_expansion_depth: config.max_entity_expansion_depth,
            max_entity_expansion_length: config.max_entity_expansion_length,
        }
    }

    /// The position of the last token that was read.
    pub fn position(&self) -> (r: TextPosition)
        ensures
            r == self@.pos,
    {
        self.pos
    }

    /// The encoding in which the input is read.
    pub fn encoding(&self) -> (r: Encoding)
        ensures
            r == self@.reader.encoding,
    {
        self.reader.encoding
    }

    /// Sets the encoding in which the input is read from here on.
    pub fn set_encoding(&mut self, encoding: Encoding)
        ensures
            final(self)@ == (LexerView {
                reader: CharReader { encoding, after_cr: old(self)@.reader.after_cr },
                ..old(self)@
            }),
    {
        self.reader.encoding = encoding;
    }

    /// From here on a character that cannot follow what was read is no
    /// error: what was read comes out as single characters.
    pub fn disable_errors(&mut self)
        ensures
            final(self)@ == (LexerView { skip_errors: true, ..old(self)@ }),
    {
        self.skip_errors = true;
    }

    /// Puts the lexer into state `st`, as if the markup that leads there had
    /// just been read.
    pub fn set_state(&mut self, st: State)
        ensures
            final(self)@ == (LexerView { st, ..old(self)@ }),
    {
        self.st = st;
    }

    /// Whether the end of the input has been reported.
    pub fn is_eof_handled(&self) -> (r: bool)
        ensures
            r == self@.eof_handled,
    {
        self.eof_handled
    }

    /// Forgets that the end of the input has been reported, so that reading
    /// goes on once the source has been refilled.
    pub fn reset_eof_handled(&mut self)
        ensures
            final(self)@ == (LexerView { eof_handled: false, ..old(self)@ }),
    {
        self.eof_handled = false;
    }

    /// Reads the next token from the characters that wait to be read again
    /// and then from `b`.
    ///
    /// Returns `Ok(Token::Eof)` at the end of the input, and an error where
    /// the input cannot be read or is not a sequence of tokens.
    pub fn next_token(&mut self, b: &mut ByteSource) -> (r: Result<Token, Error>)
        requires
            old(b).wf(),
        ensures
            final(b).wf(),
            final(self)@ == next(old(self)@, old(b)@).0,
            final(b)@ == next(old(self)@, old(b)@).1,
            agrees(r, next(old(self)@, old(b)@).2),
    {
        if self.eof_handled {
            return Ok(Token::Eof);
        }
        if !self.inside_token {
            self.pos = self.head_pos;
            self.inside_token = true;
        }
        match self.drain() {
            Some(r) => r,
            None => {
                self.reparse_depth = 0;
                self.pull(b)
            },
        }
    }

    /// Scans the characters that wait to be read again.
    fn drain(&mut self) -> (r: Option<Result<Token, Error>>)
        ensures
            final(self)@ == drained(old(self)@).0,
            match drained(old(self)@).1 {
                None => r is None,
                Some(scan) => r is Some && agrees(r->0, scan),
            },
    {
        while self.char_queue.len() > 0
            invariant
                drained(self@) == drained(old(self)@),
            decreases self.char_queue.len(),
        {
            let ghost v = self@;
            let c: char = self.char_queue.pop_front().unwrap();
            proof {
                assert(self@ == (LexerView { queue: v.queue.drop_first(), ..v }));
                applied_shift(self@, c);
            }
            match self.dispatch_char(c) {
                Ok(Some(t)) => {
                    self.inside_token = false;
                    return Some(Ok(t));
                },
                Ok(None) => {},
                Err(e) => {
                    return Some(Err(e));
                },
            }
        }
        None
    }

    /// Scans characters decoded from `b`.
    #[verifier::rlimit(60)]
    fn pull(&mut self, b: &mut ByteSource) -> (r: Result<Token, Error>)
        requires
            old(b).wf(),
        ensures
            final(b).wf(),
            final(self)@ == pulled(old(self)@, old(b)@).0,
            final(b)@ == pulled(old(self)@, old(b)@).1,
            agrees(r, pulled(old(self)@, old(b)@).2),
    {
        loop
            invariant_except_break
                pulled(self@, b@) == pulled(old(self)@, old(b)@),
            invariant
                b.wf(),
            ensures
                pulled(old(self)@, old(b)@) == (ended(self@).0, b@, ended(self@).1),
            decreases b@.len(),
        {
            let ghost v = self@;
            let ghost before = b@;
            proof {
                crate::util::read_uses_bytes(self.reader, before);
            }
            let c: char = match self.reader.next_char_from(b) {
                Ok(Some(c)) => c,
                Ok(None) => {
                    break ;
                },
                Err(e) => {
                    return Err(Error::from_read(e));
                },
            };
            if c == '\n' {
                self.head_pos.new_line();
            } else {
                self.head_pos.advance(1);
            }
            proof {
                applied_shift(self@, c);
            }
            match self.dispatch_char(c) {
                Ok(Some(t)) => {
                    self.inside_token = false;
                    return Ok(t);
                },
                Ok(None) => {},
                Err(e) => {
                    return Err(e);
                },
            }
        }
        self.end_of_stream()
    }

    /// What the lexer makes of the end of the input.
    fn end_of_stream(&mut self) -> (r: Result<Token, Error>)
        ensures
            final(self)@ == ended(old(self)@).0,
            agrees(r, ended(old(self)@).1),
    {
        self.eof_handled = true;
        self.pos = self.head_pos;
        match self.st {
            State::InsideCdata | State::CDataClosing(_) => Err(self.error(SyntaxError::UnclosedCdata)),
            State::EmptyTagClosing => Ok(Token::Character('/')),
            State::CommentClosing(ClosingSubstate::First) => Ok(Token::Character('-')),
            State::InvalidCDataClosing(ClosingSubstate::First) => Ok(Token::Character(']')),
            State::InvalidCDataClosing(ClosingSubstate::Second) => {
                self.eof_handled = false;
                let unread: [char; 1] = [']'];
                assert(unread@ == seq![']']);
                Ok(self.move_to_with_unread(State::Normal, unread.as_slice(), Token::Character(']')))
            },
            State::Normal => Ok(Token::Eof),
            _ => Err(self.error(SyntaxError::UnexpectedEof)),
        }
    }

    /// A syntax error at the position of the token that is being read.
    fn error(&self, e: SyntaxError) -> (r: Error)
        ensures
            r.is_syntax(e.text(), self@.pos),
    {
        Error::syntax(e.message(), self.pos)
    }

    /// Handles one character in the state that the lexer is in.
    fn dispatch_char(&mut self, c: char) -> (r: Result<Option<Token>, Error>)
        ensures
            final(self)@ == applied(old(self)@, c).0,
            step_agrees(r, applied(old(self)@, c).1),
    {
        match self.st {
            State::Normal => Ok(self.normal(c)),
            State::TagStarted => self.tag_opened(c),
            State::EmptyTagClosing => Ok(Some(self.empty_element_closing(c))),
            State::CommentOrCDataOrDoctypeStarted => self.comment_or_cdata_or_doctype_started(c),
            State::InsideCdata => Ok(self.inside_cdata(c)),
            State::CDataStarted(s) => self.cdata_started(c, s),
            State::InsideComment => Ok(self.inside_comment_state(c)),
            State::CommentStarted => self.comment_started(c),
            State::InsideProcessingInstruction => Ok(self.inside_processing_instruction(c)),
            State::ProcessingInstructionClosing => Ok(Some(self.processing_instruction_closing(c))),
            State::CommentClosing(s) => self.comment_closing(c, s),
            State::CDataClosing(s) => Ok(self.cdata_closing(c, s)),
            State::InsideDoctype => Ok(self.inside_doctype(c)),
            State::DoctypeStarted(s) => self.doctype_started(c, s),
            State::InvalidCDataClosing(s) => Ok(self.invalid_cdata_closing(c, s)),
            State::InsideMarkupDeclaration => self.markup_declaration(c),
            State::InsideMarkupDeclarationQuotedString(q) => Ok(Some(self.markup_declaration_string(c, q))),
        }
    }

    /// Moves to state `st` without a token.
    fn move_to(&mut self, st: State) -> (r: Option<Token>)
        ensures
            r is None,
            final(self)@ == (LexerView { st, ..old(self)@ }),
    {
        self.st = st;
        None
    }

    /// Moves to state `st` with a token.
    fn move_to_with(&mut self, st: State, token: Token) -> (r: Token)
        ensures
            r == token,
            final(self)@ == (LexerView { st, ..old(self)@ }),
    {
        self.st = st;
        token
    }

    /// Moves to state `st` with a token, and makes `st` the state to return
    /// to after markup.
    fn move_to_and_reset_normal(&mut self, st: State, token: Token) -> (r: Token)
        ensures
            r == token,
            final(self)@ == (LexerView { st, normal_state: st, ..old(self)@ }),
    {
        self.normal_state = st;
        self.st = st;
        token
    }

    /// Moves to state `st` with a token, and puts the characters `cs` back in
    /// front of the input.
    fn move_to_with_unread(&mut self, st: State, cs: &[char], token: Token) -> (r: Token)
        ensures
            r == token,
            final(self)@ == (LexerView { st, queue: cs@ + old(self)@.queue, ..old(self)@ }),
    {
        let ghost before = self.char_queue@;
        let mut i: usize = cs.len();
        assert(cs@.skip(i as int) + before == before);
        while i > 0
            invariant
                i <= cs.len(),
                self.char_queue@ == cs@.skip(i as int) + before,
                self.st == old(self).st,
                self.normal_state == old(self).normal_state,
                self.pos == old(self).pos,
                self.head_pos == old(self).head_pos,
                self.inside_token == old(self).inside_token,
                self.eof_handled == old(self).eof_handled,
                self.reparse_depth == old(self).reparse_depth,
                self.skip_errors == old(self).skip_errors,
                self.reader == old(self).reader,
                self.max_entity_expansion_depth == old(self).max_entity_expansion_depth,
                self.max_entity_expansion_length == old(self).max_entity_expansion_length,
            decreases i,
        {
            i = i - 1;
            self.char_queue.push_front(cs[i]);
            assert(seq![cs@[i as int]] + (cs@.skip(i + 1) + before) == cs@.skip(i as int) + before);
        }
        assert(cs@.skip(0) == cs@);
        self.move_to_with(st, token)
    }

    /// Puts replacement text in front of the input, so that the next tokens
    /// come from it.
    ///
    /// Fails with "Entity too big" where more expansions would be under way
    /// than the configuration allows, or where more characters than it allows
    /// already wait to be read.
    pub fn reparse(&mut self, markup: &str) -> (r: Result<(), Error>)
        ensures
            final(self)@ == reparsed(old(self)@, markup@).0,
            match reparsed(old(self)@, markup@).1 {
                None => r is Ok,
                Some(scan) => r is Err && agrees(Err(r->Err_0), scan),
            },
    {
        let chars = str_chars(markup);
        if chars.len() == 0 {
            return Ok(());
        }
        let refused = self.reparse_depth >= self.max_entity_expansion_depth || self.char_queue.len()
            > self.max_entity_expansion_length;
        if self.reparse_depth < u8::MAX {
            self.reparse_depth = self.reparse_depth + 1;
        }
        if refused {
            return Err(self.error(SyntaxError::EntityTooBig));
        }
        self.eof_handled = false;
        let st = self.st;
        self.move_to_with_unread(st, chars.as_slice(), Token::Eof);
        Ok(())
    }

    /// A character that cannot follow `chunk`: an error, or, where errors are
    /// switched off, the characters of `chunk` and `c` one by one.
    fn handle_error(&mut self, chunk: &'static str, c: char) -> (r: Result<Option<Token>, Error>)
        requires
            step(old(self)@.st, old(self)@.normal_state, c) == Step::Reject(chunk),
        ensures
            final(self)@ == applied(old(self)@, c).0,
            step_agrees(r, applied(old(self)@, c).1),
    {
        proof {
            reveal(applied);
        }
        if self.skip_errors {
            let chars = str_chars(chunk);
            let first: char = if chars.len() > 0 { chars[0] } else { '\0' };
            let ghost before = self.char_queue@;
            let mut i: usize = 1;
            proof {
                if chunk@.len() >= 1 {
                    assert(chunk@.subrange(1, 1) == Seq::<char>::empty());
                    assert(before + chunk@.subrange(1, 1) == before);
                }
            }
            while i < chars.len()
                invariant
                    1 <= i,
                    chars@ == chunk@,
                    i <= chars.len() || chars.len() == 0,
                    chars.len() > 0 ==> self.char_queue@ == before + chunk@.subrange(1, i as int),
                    chars.len() == 0 ==> self.char_queue@ == before,
                    self.st == old(self).st,
                    self.normal_state == old(self).normal_state,
                    self.pos == old(self).pos,
                    self.head_pos == old(self).head_pos,
                    self.inside_token == old(self).inside_token,
                    self.eof_handled == old(self).eof_handled,
                    self.reparse_depth == old(self).reparse_depth,
                    self.skip_errors == old(self).skip_errors,
                    self.reader == old(self).reader,
                    self.max_entity_expansion_depth == old(self).max_entity_expansion_depth,
                    self.max_entity_expansion_length == old(self).max_entity_expansion_length,
                decreases chars.len() - i,
            {
                self.char_queue.push_back(chars[i]);
                assert(chunk@.subrange(1, i + 1) == chunk@.subrange(1, i as int).push(chunk@[i as int]));
                i = i + 1;
            }
            self.char_queue.push_back(c);
            proof {
                if chars.len() > 0 {
                    assert(chunk@.subrange(1, i as int) == chunk@.skip(1));
                    assert(self.char_queue@ == before + chunk@.skip(1).push(c));
                } else {
                    assert(self.char_queue@ == before.push(c));
                }
            }
            return Ok(Some(self.move_to_with(State::Normal, Token::Character(first))));
        }
        Err(self.error(SyntaxError::UnexpectedTokenBefore(chunk, c)))
    }

    /// A character between tokens.
    fn normal(&mut self, c: char) -> (r: Option<Token>)
        requires
            old(self)@.st == State::Normal,
        ensures
            final(self)@ == applied(old(self)@, c).0,
            step_agrees(Ok(r), applied(old(self)@, c).1),
    {
        proof {
            reveal(applied);
            assert(Seq::<char>::empty() + self@.queue == self@.queue);
        }
        match c {
            '<' => self.move_to(State::TagStarted),
            '>' => Some(Token::TagEnd),
            '/' => self.move_to(State::EmptyTagClosing),
            '=' => Some(Token::EqualsSign),
            '"' => Some(Token::DoubleQuote),
            '\'' => Some(Token::SingleQuote),
            ']' => self.move_to(State::InvalidCDataClosing(ClosingSubstate::First)),
            '&' => Some(Token::ReferenceStart),
            ';' => Some(Token::ReferenceEnd),
            _ => Some(Token::Character(c)),
        }
    }

    /// A character within a CDATA section.
    fn inside_cdata(&mut self, c: char) -> (r: Option<Token>)
        requires
            old(self)@.st == State::InsideCdata,
        ensures
            final(self)@ == applied(old(self)@, c).0,
            step_agrees(Ok(r), applied(old(self)@, c).1),
    {
        proof {
            reveal(applied);
            assert(Seq::<char>::empty() + self@.queue == self@.queue);
        }
        match c {
            ']' => self.move_to(State::CDataClosing(ClosingSubstate::First)),
            _ => Some(Token::Character(c)),
        }
    }

    /// A character within a processing instruction.  The declaration at the
    /// start of a document is read from these tokens.
    fn inside_processing_instruction(&mut self, c: char) -> (r: Option<Token>)
        requires
            old(self)@.st == State::InsideProcessingInstruction,
        ensures
            final(self)@ == applied(old(self)@, c).0,
            step_agrees(Ok(r), applied(old(self)@, c).1),
    {
        proof {
            reveal(applied);
            assert(Seq::<char>::empty() + self@.queue == self@.queue);
        }
        match c {
            '?' => self.move_to(State::ProcessingInstructionClosing),
            '<' => Some(Token::OpeningTagStart),
            '>' => Some(Token::TagEnd),
            '/' => Some(Token::ClosingTagStart),
            '=' => Some(Token::EqualsSign),
            '"' => Some(Token::DoubleQuote),
            '\'' => Some(Token::SingleQuote),
            '&' => Some(Token::ReferenceStart),
            ';' => Some(Token::ReferenceEnd),
            _ => Some(Token::Character(c)),
        }
    }

    /// A character within a comment.
    fn inside_comment_state(&mut self, c: char) -> (r: Option<Token>)
        requires
            old(self)@.st == State::InsideComment,
        ensures
            final(self)@ == applied(old(self)@, c).0,
            step_agrees(Ok(r), applied(old(self)@, c).1),
    {
        proof {
            reveal(applied);
            assert(Seq::<char>::empty() + self@.queue == self@.queue);
        }
        match c {
            '-' => self.move_to(State::CommentClosing(ClosingSubstate::First)),
            _ => Some(Token::Character(c)),
        }
    }

    /// A character after `<`.
    fn tag_opened(&mut self, c: char) -> (r: Result<Option<Token>, Error>)
        requires
            old(self)@.st == State::TagStarted,
        ensures
            final(self)@ == applied(old(self)@, c).0,
            step_agrees(r, applied(old(self)@, c).1),
    {
        proof {
            reveal(applied);
            assert(Seq::<char>::empty() + self@.queue == self@.queue);
        }
        let normal_state = self.normal_state;
        if c == '?' {
            Ok(Some(self.move_to_with(State::InsideProcessingInstruction, Token::ProcessingInstructionStart)))
        } else if c == '/' {
            Ok(Some(self.move_to_with(normal_state, Token::ClosingTagStart)))
        } else if c == '!' {
            Ok(self.move_to(State::CommentOrCDataOrDoctypeStarted))
        } else if crate::common::is_whitespace_char(c) || crate::common::is_name_start_char(c) {
            let unread: [char; 1] = [c];
            assert(unread@ == seq![c]);
            Ok(Some(self.move_to_with_unread(normal_state, unread.as_slice(), Token::OpeningTagStart)))
        } else {
            self.handle_error("<", c)
        }
    }

    /// A character after `<!`.
    fn comment_or_cdata_or_doctype_started(&mut self, c: char) -> (r: Result<Option<Token>, Error>)
        requires
            old(self)@.st == State::CommentOrCDataOrDoctypeStarted,
        ensures
            final(self)@ == applied(old(self)@, c).0,
            step_agrees(r, applied(old(self)@, c).1),
    {
        proof {
            reveal(applied);
        }
        if c == '-' {
            Ok(self.move_to(State::CommentStarted))
        } else if c == '[' {
            Ok(self.move_to(State::CDataStarted(CDataStartedSubstate::E)))
        } else if c == 'D' {
            Ok(self.move_to(State::DoctypeStarted(DoctypeStartedSubstate::D)))
        } else if (c == 'E' || c == 'A' || c == 'N') && self.normal_state == State::InsideDoctype {
            let unread: [char; 1] = [c];
            assert(unread@ == seq![c]);
            Ok(
                Some(
                    self.move_to_with_unread(
                        State::InsideMarkupDeclaration,
                        unread.as_slice(),
                        Token::MarkupDeclarationStart,
                    ),
                ),
            )
        } else {
            self.handle_error("<!", c)
        }
    }

    /// A character after `<!-`.
    fn comment_started(&mut self, c: char) -> (r: Result<Option<Token>, Error>)
        requires
            old(self)@.st == State::CommentStarted,
        ensures
            final(self)@ == applied(old(self)@, c).0,
            step_agrees(r, applied(old(self)@, c).1),
    {
        proof {
            reveal(applied);
            assert(Seq::<char>::empty() + self@.queue == self@.queue);
        }
        if c == '-' {
            Ok(Some(self.move_to_with(State::InsideComment, Token::CommentStart)))
        } else {
            self.handle_error("<!-", c)
        }
    }

    /// A character after `<![` up to `<![CDATA`.
    fn cdata_started(&mut self, c: char, s: CDataStartedSubstate) -> (r: Result<Option<Token>, Error>)
        requires
            old(self)@.st == State::CDataStarted(s),
        ensures
            final(self)@ == applied(old(self)@, c).0,
            step_agrees(r, applied(old(self)@, c).1),
    {
        proof {
            reveal(applied);
            assert(Seq::<char>::empty() + self@.queue == self@.queue);
        }
        match s {
            CDataStartedSubstate::E => if c == 'C' {
                Ok(self.move_to(State::CDataStarted(CDataStartedSubstate::C)))
            } else {
                self.handle_error("<![", c)
            },
            CDataStartedSubstate::C => if c == 'D' {
                Ok(self.move_to(State::CDataStarted(CDataStartedSubstate::CD)))
            } else {
                self.handle_error("<![C", c)
            },
            CDataStartedSubstate::CD => if c == 'A' {
                Ok(self.move_to(State::CDataStarted(CDataStartedSubstate::CDA)))
            } else {
                self.handle_error("<![CD", c)
            },
            CDataStartedSubstate::CDA => if c == 'T' {
                Ok(self.move_to(State::CDataStarted(CDataStartedSubstate::CDAT)))
            } else {
                self.handle_error("<![CDA", c)
            },
            CDataStartedSubstate::CDAT => if c == 'A' {
                Ok(self.move_to(State::CDataStarted(CDataStartedSubstate::CDATA)))
            } else {
                self.handle_error("<![CDAT", c)
            },
            CDataStartedSubstate::CDATA => if c == '[' {
                Ok(Some(self.move_to_with(State::InsideCdata, Token::CDataStart)))
            } else {
                self.handle_error("<![CDATA", c)
            },
        }
    }

    /// A character within a markup declaration that is neither a document
    /// type declaration nor a CDATA section.
    fn markup_declaration(&mut self, c: char) -> (r: Result<Option<Token>, Error>)
        requires
            old(self)@.st == State::InsideMarkupDeclaration,
        ensures
            final(self)@ == applied(old(self)@, c).0,
            step_agrees(r, applied(old(self)@, c).1),
    {
        proof {
            reveal(applied);
            assert(Seq::<char>::empty() + self@.queue == self@.queue);
        }
        let normal_state = self.normal_state;
        match c {
            '<' => self.handle_error("<!", c),
            '>' => Ok(Some(self.move_to_with(normal_state, Token::TagEnd))),
            '&' => Ok(Some(Token::ReferenceStart)),
            ';' => Ok(Some(Token::ReferenceEnd)),
            '"' => Ok(
                Some(
                    self.move_to_with(
                        State::InsideMarkupDeclarationQuotedString(QuoteStyle::Double),
                        Token::DoubleQuote,
                    ),
                ),
            ),
            '\'' => Ok(
                Some(
                    self.move_to_with(
                        State::InsideMarkupDeclarationQuotedString(QuoteStyle::Single),
                        Token::SingleQuote,
                    ),
                ),
            ),
            _ => Ok(Some(Token::Character(c))),
        }
    }

    /// A character within a quoted string of a markup declaration.
    fn markup_declaration_string(&mut self, c: char, q: QuoteStyle) -> (r: Token)
        requires
            old(self)@.st == State::InsideMarkupDeclarationQuotedString(q),
        ensures
            final(self)@ == applied(old(self)@, c).0,
            step_agrees(Ok(Some(r)), applied(old(self)@, c).1),
    {
        proof {
            reveal(applied);
            assert(Seq::<char>::empty() + self@.queue == self@.queue);
        }
        if c == '"' && q == QuoteStyle::Double {
            self.move_to_with(State::InsideMarkupDeclaration, Token::DoubleQuote)
        } else if c == '\'' && q == QuoteStyle::Single {
            self.move_to_with(State::InsideMarkupDeclaration, Token::SingleQuote)
        } else {
            Token::Character(c)
        }
    }

    /// A character after `<!D` up to `<!DOCTYP`.
    fn doctype_started(&mut self, c: char, s: DoctypeStartedSubstate) -> (r: Result<Option<Token>, Error>)
        requires
            old(self)@.st == State::DoctypeStarted(s),
        ensures
            final(self)@ == applied(old(self)@, c).0,
            step_agrees(r, applied(old(self)@, c).1),
    {
        proof {
            reveal(applied);
            assert(Seq::<char>::empty() + self@.queue == self@.queue);
        }
        match s {
            DoctypeStartedSubstate::D => if c == 'O' {
                Ok(self.move_to(State::DoctypeStarted(DoctypeStartedSubstate::DO)))
            } else {
                self.handle_error("<!D", c)
            },
            DoctypeStartedSubstate::DO => if c == 'C' {
                Ok(self.move_to(State::DoctypeStarted(DoctypeStartedSubstate::DOC)))
            } else {
                self.handle_error("<!DO", c)
            },
            DoctypeStartedSubstate::DOC => if c == 'T' {
                Ok(self.move_to(State::DoctypeStarted(DoctypeStartedSubstate::DOCT)))
            } else {
                self.handle_error("<!DOC", c)
            },
            DoctypeStartedSubstate::DOCT => if c == 'Y' {
                Ok(self.move_to(State::DoctypeStarted(DoctypeStartedSubstate::DOCTY)))
            } else {
                self.handle_error("<!DOCT", c)
            },
            DoctypeStartedSubstate::DOCTY => if c == 'P' {
                Ok(self.move_to(State::DoctypeStarted(DoctypeStartedSubstate::DOCTYP)))
            } else {
                self.handle_error("<!DOCTY", c)
            },
            DoctypeStartedSubstate::DOCTYP => if c == 'E' {
                Ok(Some(self.move_to_and_reset_normal(State::InsideDoctype, Token::DoctypeStart)))
            } else {
                self.handle_error("<!DOCTYP", c)
            },
        }
    }

    /// A character within a document type declaration.
    fn inside_doctype(&mut self, c: char) -> (r: Option<Token>)
        requires
            old(self)@.st == State::InsideDoctype,
        ensures
            final(self)@ == applied(old(self)@, c).0,
            step_agrees(Ok(r), applied(old(self)@, c).1),
    {
        proof {
            reveal(applied);
            assert(Seq::<char>::empty() + self@.queue == self@.queue);
        }
        match c {
            '>' => Some(self.move_to_and_reset_normal(State::Normal, Token::TagEnd)),
            '<' => self.move_to(State::TagStarted),
            '&' => Some(Token::ReferenceStart),
            ';' => Some(Token::ReferenceEnd),
            '"' => Some(Token::DoubleQuote),
            '\'' => Some(Token::SingleQuote),
            _ => Some(Token::Character(c)),
        }
    }

    /// A character after `?` within a processing instruction.
    fn processing_instruction_closing(&mut self, c: char) -> (r: Token)
        requires
            old(self)@.st == State::ProcessingInstructionClosing,
        ensures
            final(self)@ == applied(old(self)@, c).0,
            step_agrees(Ok(Some(r)), applied(old(self)@, c).1),
    {
        proof {
            reveal(applied);
            assert(Seq::<char>::empty() + self@.queue == self@.queue);
        }
        let normal_state = self.normal_state;
        if c == '>' {
            self.move_to_with(normal_state, Token::ProcessingInstructionEnd)
        } else {
            let unread: [char; 1] = [c];
            assert(unread@ == seq![c]);
            self.move_to_with_unread(State::InsideProcessingInstruction, unread.as_slice(), Token::Character('?'))
        }
    }

    /// A character after `/`.
    fn empty_element_closing(&mut self, c: char) -> (r: Token)
        requires
            old(self)@.st == State::EmptyTagClosing,
        ensures
            final(self)@ == applied(old(self)@, c).0,
            step_agrees(Ok(Some(r)), applied(old(self)@, c).1),
    {
        proof {
            reveal(applied);
            assert(Seq::<char>::empty() + self@.queue == self@.queue);
        }
        let normal_state = self.normal_state;
        if c == '>' {
            self.move_to_with(normal_state, Token::EmptyTagEnd)
        } else {
            let unread: [char; 1] = [c];
            assert(unread@ == seq![c]);
            self.move_to_with_unread(normal_state, unread.as_slice(), Token::Character('/'))
        }
    }

    /// A character after `-` or `--` within a comment.
    fn comment_closing(&mut self, c: char, s: ClosingSubstate) -> (r: Result<Option<Token>, Error>)
        requires
            old(self)@.st == State::CommentClosing(s),
        ensures
            final(self)@ == applied(old(self)@, c).0,
            step_agrees(r, applied(old(self)@, c).1),
    {
        proof {
            reveal(applied);
            assert(Seq::<char>::empty() + self@.queue == self@.queue);
        }
        let normal_state = self.normal_state;
        match s {
            ClosingSubstate::First => if c == '-' {
                Ok(self.move_to(State::CommentClosing(ClosingSubstate::Second)))
            } else {
                let unread: [char; 1] = [c];
                assert(unread@ == seq![c]);
                Ok(Some(self.move_to_with_unread(State::InsideComment, unread.as_slice(), Token::Character('-'))))
            },
            ClosingSubstate::Second => if c == '>' {
                Ok(Some(self.move_to_with(normal_state, Token::CommentEnd)))
            } else {
                self.handle_error("--", c)
            },
        }
    }

    /// A character after `]` or `]]` within a CDATA section.
    fn cdata_closing(&mut self, c: char, s: ClosingSubstate) -> (r: Option<Token>)
        requires
            old(self)@.st == State::CDataClosing(s),
        ensures
            final(self)@ == applied(old(self)@, c).0,
            step_agrees(Ok(r), applied(old(self)@, c).1),
    {
        proof {
            reveal(applied);
            assert(Seq::<char>::empty() + self@.queue == self@.queue);
        }
        match s {
            ClosingSubstate::First => if c == ']' {
                self.move_to(State::CDataClosing(ClosingSubstate::Second))
            } else {
                let unread: [char; 1] = [c];
                assert(unread@ == seq![c]);
                Some(self.move_to_with_unread(State::InsideCdata, unread.as_slice(), Token::Character(']')))
            },
            ClosingSubstate::Second => if c == '>' {
                Some(self.move_to_with(State::Normal, Token::CDataEnd))
            } else {
                let unread: [char; 2] = [']', c];
                assert(unread@ == seq![']', c]);
                Some(self.move_to_with_unread(State::InsideCdata, unread.as_slice(), Token::Character(']')))
            },
        }
    }

    /// A character after `]` or `]]` outside a CDATA section.
    fn invalid_cdata_closing(&mut self, c: char, s: ClosingSubstate) -> (r: Option<Token>)
        requires
            old(self)@.st == State::InvalidCDataClosing(s),
        ensures
            final(self)@ == applied(old(self)@, c).0,
            step_agrees(Ok(r), applied(old(self)@, c).1),
    {
        proof {
            reveal(applied);
            assert(Seq::<char>::empty() + self@.queue == self@.queue);
        }
        let normal_state = self.normal_state;
        match s {
            ClosingSubstate::First => if c == ']' {
                self.move_to(State::InvalidCDataClosing(ClosingSubstate::Second))
            } else {
                let unread: [char; 1] = [c];
                assert(unread@ == seq![c]);
                Some(self.move_to_with_unread(State::Normal, unread.as_slice(), Token::Character(']')))
            },
            ClosingSubstate::Second => if c == '>' {
                Some(self.move_to_with(normal_state, Token::CDataEnd))
            } else {
                let unread: [char; 2] = [']', c];
                assert(unread@ == seq![']', c]);
                Some(self.move_to_with_unread(State::Normal, unread.as_slice(), Token::Character(']')))
            },
        }
    }
}


/// The number of characters of a token that the lexer has read when it is in
/// state `st`: the length of the part of the token that the state stands for.
pub open spec fn held(st: State) -> nat {
    match st {
        State::Normal | State::InsideCdata | State::InsideProcessingInstruction | State::InsideComment
        | State::InsideDoctype | State::InsideMarkupDeclaration | State::InsideMarkupDeclarationQuotedString(
            _,
        ) => 0,
        State::TagStarted | State::ProcessingInstructionClosing | State::EmptyTagClosing => 1,
        State::CommentOrCDataOrDoctypeStarted => 2,
        State::CommentStarted => 3,
        State::DoctypeStarted(sub) => match sub {
            DoctypeStartedSubstate::D => 3,
            DoctypeStartedSubstate::DO => 4,
            DoctypeStartedSubstate::DOC => 5,
            DoctypeStartedSubstate::DOCT => 6,
            DoctypeStartedSubstate::DOCTY => 7,
            DoctypeStartedSubstate::DOCTYP => 8,
        },
        State::CDataStarted(sub) => match sub {
            CDataStartedSubstate::E => 3,
            CDataStartedSubstate::C => 4,
            CDataStartedSubstate::CD => 5,
            CDataStartedSubstate::CDA => 6,
            CDataStartedSubstate::CDAT => 7,
            CDataStartedSubstate::CDATA => 8,
        },
        State::CommentClosing(sub) | State::CDataClosing(sub) | State::InvalidCDataClosing(sub) => match sub {
            ClosingSubstate::First => 1,
            ClosingSubstate::Second => 2,
        },
    }
}

impl LexerView {
    /// Errors are reported, and the state to return to after markup holds no
    /// part of a token.
    pub open spec fn strict(self) -> bool {
        !self.skip_errors && held(self.normal_state) == 0
    }

    /// The characters that the lexer has taken in and not yet given out: those
    /// that wait to be read again and those that its state stands for.
    pub open spec fn weight(self) -> nat {
        self.queue.len() + held(self.st)
    }

    /// How many more entity expansions may start.
    pub open spec fn budget(self) -> nat {
        if self.reparse_depth <= self.max_depth {
            (self.max_depth - self.reparse_depth) as nat
        } else {
            0
        }
    }

    /// How far the lexer is from reporting the end of its input, once the
    /// source has run dry: 0 where it has reported it; 3 while a `;`, which
    /// may end a reference, waits to be read again; else 2 or 1 by the
    /// number of characters it still has to give out.
    pub open spec fn phase(self) -> nat {
        if self.eof_handled {
            0
        } else if self.queue.contains(';') {
            3
        } else if self.weight() >= 2 {
            2
        } else {
            1
        }
    }

    /// Whether this lexer comes strictly before `other` in the order that
    /// compares the phase first, then the budget, then the weight.
    pub open spec fn below(self, other: LexerView) -> bool {
        self.phase() < other.phase() || (self.phase() == other.phase() && (self.budget() < other.budget() || (
        self.budget() == other.budget() && self.weight() < other.weight())))
    }
}

/// What one character does to the measures of a strict lexer.
proof fn applied_measures(v: LexerView, c: char)
    requires
        v.strict(),
    ensures
        ({
            let (w, out) = applied(v, c);
            &&& w.strict()
            &&& w.eof_handled == v.eof_handled
            &&& w.reparse_depth == v.reparse_depth
            &&& w.max_depth == v.max_depth
            &&& w.max_length == v.max_length
            &&& w.reader == v.reader
            &&& w.head_pos == v.head_pos
            &&& match out {
                None => w.queue == v.queue && held(w.st) == held(v.st) + 1,
                Some(Scan::Token(t)) => {
                    &&& t != Token::Eof
                    &&& w.weight() <= v.weight()
                    &&& (w.queue.contains(';') ==> c == ';' || v.queue.contains(';'))
                    &&& (t == Token::ReferenceEnd ==> c == ';')
                },
                Some(_) => w == v,
            }
        }),
{
    reveal(applied);
    let (w, out) = applied(v, c);
    match step(v.st, v.normal_state, c) {
        Step::Emit(st, token, unread, set_normal) => {
            assert(unread.len() <= 2);
            assert(forall|j: int| 0 <= j < unread.len() ==> unread[j] == c || unread[j] == ']');
            if w.queue.contains(';') {
                let i = choose|i: int| 0 <= i < w.queue.len() && w.queue[i] == ';';
                if i >= unread.len() {
                    assert(v.queue[i - unread.len()] == ';');
                }
            }
        },
        _ => {},
    }
}

/// What scanning the characters that wait to be read again does to the
/// measures of a strict lexer.
proof fn drained_measures(v: LexerView)
    requires
        v.strict(),
    ensures
        ({
            let (w, out) = drained(v);
            &&& w.strict()
            &&& w.eof_handled == v.eof_handled
            &&& w.reparse_depth == v.reparse_depth
            &&& w.max_depth == v.max_depth
            &&& w.max_length == v.max_length
            &&& w.reader == v.reader
            &&& match out {
                None => w.queue.len() == 0 && held(w.st) == v.weight(),
                Some(Scan::Token(t)) => {
                    &&& t != Token::Eof
                    &&& w.weight() < v.weight()
                    &&& (w.queue.contains(';') ==> v.queue.contains(';'))
                    &&& (t == Token::ReferenceEnd ==> v.queue.contains(';'))
                },
                Some(_) => true,
            }
        }),
    decreases v.queue.len(),
{
    if v.queue.len() > 0 {
        let c = v.queue[0];
        let popped = LexerView { queue: v.queue.drop_first(), ..v };
        applied_measures(popped, c);
        let (w, out) = applied(popped, c);
        if out is None {
            drained_measures(w);
            let (x, end) = drained(w);
            if end matches Some(Scan::Token(_)) && x.queue.contains(';') {
                let i = choose|i: int| 0 <= i < w.queue.len() && w.queue[i] == ';';
                assert(v.queue[i + 1] == ';');
            }
            if end == Some(Scan::Token(Token::ReferenceEnd)) {
                let i = choose|i: int| 0 <= i < w.queue.len() && w.queue[i] == ';';
                assert(v.queue[i + 1] == ';');
            }
        } else {
            if c == ';' {
                assert(v.queue[0] == ';');
            }
            if popped.queue.contains(';') {
                let i = choose|i: int| 0 <= i < popped.queue.len() && popped.queue[i] == ';';
                assert(v.queue[i + 1] == ';');
            }
        }
    }
}

/// What scanning characters from the source does to the measures of a strict
/// lexer with no characters waiting: it consumes bytes, or it ends the scan at
/// the end of the input.
proof fn pulled_measures(v: LexerView, bytes: Seq<u8>)
    requires
        v.strict(),
        v.queue.len() == 0,
    ensures
        ({
            let (w, rest, scan) = pulled(v, bytes);
            &&& w.strict()
            &&& w.max_depth == v.max_depth
            &&& w.max_length == v.max_length
            &&& rest.len() <= bytes.len()
            &&& match scan {
                Scan::Token(t) => t != Token::Eof && rest.len() == bytes.len() ==> {
                    &&& t != Token::ReferenceEnd
                    &&& w.reparse_depth == v.reparse_depth
                    &&& (w.eof_handled || (held(v.st) == 2 && !w.queue.contains(';') && w.weight() == 1))
                },
                _ => true,
            }
        }),
    decreases bytes.len(),
{
    crate::util::read_uses_bytes(v.reader, bytes);
    let (reader, outcome, used) = read(v.reader, bytes);
    let rest = bytes.skip(used as int);
    let w = LexerView { reader, ..v };
    match outcome {
        Outcome::Char(c) => {
            let moved = LexerView {
                head_pos: if c == '\n' { w.head_pos.next_line() } else { w.head_pos.advanced(1) },
                ..w
            };
            applied_measures(moved, c);
            let (x, out) = applied(moved, c);
            if out is None {
                pulled_measures(x, rest);
            }
        },
        Outcome::End => {
            let (x, scan) = ended(w);
            if v.st == State::InvalidCDataClosing(ClosingSubstate::Second) {
                assert(x.queue =~= seq![']']);
                assert(!x.queue.contains(';'));
            }
        },
        _ => {},
    }
}

/// Every token but `Eof` brings a strict lexer nearer to the end of its
/// input: a call that gives one either consumes bytes of the source, or
/// leaves the lexer strictly below where it was; and where it gives the end
/// of a reference without consuming bytes, the lexer was in phase 3 and its
/// budget is what it was.
pub proof fn next_token_progress(v: LexerView, bytes: Seq<u8>)
    requires
        v.strict(),
    ensures
        ({
            let (w, rest, scan) = next(v, bytes);
            &&& w.strict()
            &&& w.max_depth == v.max_depth
            &&& w.max_length == v.max_length
            &&& rest.len() <= bytes.len()
            &&& (scan matches Scan::Token(t) && t != Token::Eof ==> rest.len() < bytes.len() || w.below(v))
            &&& (scan == Scan::Token(Token::ReferenceEnd) && rest.len() == bytes.len() ==> v.phase() == 3
                && w.budget() == v.budget())
        }),
{
    if !v.eof_handled {
        let start = if v.inside_token {
            v
        } else {
            LexerView { pos: v.head_pos, inside_token: true, ..v }
        };
        drained_measures(start);
        let (w, out) = drained(start);
        if out is None {
            pulled_measures(LexerView { reparse_depth: 0, ..w }, bytes);
        }
    }
}

/// Putting replacement text in front of the input of a strict lexer uses up
/// budget: where it is allowed and the text is not empty, the budget is
/// smaller afterwards.
pub proof fn reparse_uses_budget(v: LexerView, markup: Seq<char>)
    requires
        v.strict(),
    ensures
        ({
            let (w, out) = reparsed(v, markup);
            &&& w.strict()
            &&& w.max_depth == v.max_depth
            &&& w.max_length == v.max_length
            &&& (out is None && markup.len() > 0 ==> w.budget() < v.budget() && !w.eof_handled)
            &&& (markup.len() == 0 ==> w == v)
        }),
{
}

} // verus!
