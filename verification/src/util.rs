//! Byte sources, encodings, and the decoding of bytes into characters.

use vstd::prelude::*;
use vstd::string::*;
use vstd::utf8::*;
use crate::text::{char_from_u32, chars_are, str_chars};

verus! {

/// A character encoding that the reader knows, or a state of not yet knowing.
#[derive(Copy, Clone, PartialEq, Eq, Structural, Debug)]
pub enum Encoding {
    /// UTF-8, declared or found by its byte order mark.
    Utf8,
    /// UTF-8, assumed because nothing said otherwise.
    Default,
    /// ISO-8859-1.
    Latin1,
    /// US-ASCII.
    Ascii,
    /// UTF-16, big endian.
    Utf16Be,
    /// UTF-16, little endian.
    Utf16Le,
    /// UTF-16 of a byte order that is still to be found.
    Utf16,
    /// Nothing is known yet.
    Unknown,
}

/// The lower-case form of an ASCII capital letter; any other character itself.
pub open spec fn ascii_lower(c: char) -> char {
    if 'A' <= c && c <= 'Z' {
        ((c as u8 + 32) as u8) as char
    } else {
        c
    }
}

/// An encoding name without its dashes and underscores, in lower case.
pub open spec fn folded_name(s: Seq<char>) -> Seq<char>
    decreases s.len(),
{
    if s.len() == 0 {
        Seq::empty()
    } else if s.last() == '-' || s.last() == '_' {
        folded_name(s.drop_last())
    } else {
        folded_name(s.drop_last()).push(ascii_lower(s.last()))
    }
}

impl Encoding {
    /// The name under which the encoding is reported.
    pub open spec fn name(self) -> Seq<char> {
        match self {
            Encoding::Utf8 | Encoding::Default => "UTF-8"@,
            Encoding::Latin1 => "ISO-8859-1"@,
            Encoding::Ascii => "US-ASCII"@,
            Encoding::Utf16Be | Encoding::Utf16Le | Encoding::Utf16 => "UTF-16"@,
            Encoding::Unknown => "(unknown)"@,
        }
    }

    /// The name under which the encoding is reported.
    pub fn as_str(self) -> (r: &'static str)
        ensures
            r@ == self.name(),
    {
        match self {
            Encoding::Utf8 | Encoding::Default => "UTF-8",
            Encoding::Latin1 => "ISO-8859-1",
            Encoding::Ascii => "US-ASCII",
            Encoding::Utf16Be | Encoding::Utf16Le | Encoding::Utf16 => "UTF-16",
            Encoding::Unknown => "(unknown)",
        }
    }

    /// The encoding that a declaration names.  Case, dashes and underscores
    /// do not matter.
    pub open spec fn named(name: Seq<char>) -> Option<Encoding> {
        let n = folded_name(name);
        if n == "utf8"@ {
            Some(Encoding::Utf8)
        } else if n == "iso88591"@ || n == "latin1"@ {
            Some(Encoding::Latin1)
        } else if n == "utf16"@ {
            Some(Encoding::Utf16)
        } else if n == "utf16be"@ {
            Some(Encoding::Utf16Be)
        } else if n == "utf16le"@ {
            Some(Encoding::Utf16Le)
        } else if n == "ascii"@ || n == "usascii"@ {
            Some(Encoding::Ascii)
        } else {
            None
        }
    }

    /// Looks an encoding up by the name that a declaration gives it.
    pub fn from_name(name: &str) -> (r: Option<Encoding>)
        ensures
            r == Self::named(name@),
    {
        let chars = str_chars(name);
        let mut folded: Vec<char> = Vec::new();
        let mut i: usize = 0;
        while i < chars.len()
            invariant
                i <= chars.len(),
                folded@ == folded_name(chars@.take(i as int)),
            decreases chars.len() - i,
        {
            let c: char = chars[i];
            proof {
                let t = chars@.take(i + 1);
                assert(t.drop_last() == chars@.take(i as int));
                assert(t.last() == c);
            }
            if c != '-' && c != '_' {
                if 'A' <= c && c <= 'Z' {
                    folded.push(((c as u8) + 32) as char);
                } else {
                    folded.push(c);
                }
            }
            i = i + 1;
        }
        assert(chars@.take(chars@.len() as int) == chars@);
        if chars_are(&folded, "utf8") {
            Some(Encoding::Utf8)
        } else if chars_are(&folded, "iso88591") || chars_are(&folded, "latin1") {
            Some(Encoding::Latin1)
        } else if chars_are(&folded, "utf16") {
            Some(Encoding::Utf16)
        } else if chars_are(&folded, "utf16be") {
            Some(Encoding::Utf16Be)
        } else if chars_are(&folded, "utf16le") {
            Some(Encoding::Utf16Le)
        } else if chars_are(&folded, "ascii") || chars_are(&folded, "usascii") {
            Some(Encoding::Ascii)
        } else {
            None
        }
    }
}

/// A source of bytes that is read from the front and may be refilled at the
/// back between reads.
pub struct ByteSource {
    data: Vec<u8>,
    pos: usize,
}

impl View for ByteSource {
    type V = Seq<u8>;

    /// The bytes that have not been read yet.
    closed spec fn view(&self) -> Seq<u8> {
        self.data@.skip(self.pos as int)
    }
}

impl ByteSource {
    /// The reading position lies within the data.
    pub closed spec fn wf(&self) -> bool {
        self.pos <= self.data.len()
    }

    /// A source that yields the bytes of `data`.
    pub fn new(data: Vec<u8>) -> (s: ByteSource)
        ensures
            s.wf(),
            s@ == data@,
    {
        ByteSource { data, pos: 0 }
    }

    /// A source that yields the UTF-8 bytes of `text`.
    pub fn from_str(text: &str) -> (s: ByteSource)
        ensures
            s.wf(),
            s@ == encode_utf8(text@),
    {
        ByteSource { data: text.as_bytes_vec(), pos: 0 }
    }

    /// Adds `bytes` behind the bytes that are still to be read.
    pub fn feed(&mut self, bytes: &[u8])
        requires
            old(self).wf(),
        ensures
            final(self).wf(),
            final(self)@ == old(self)@ + bytes@,
    {
        self.data.extend_from_slice(bytes);
    }

    /// The number of bytes that are still to be read.
    pub fn remaining(&self) -> (n: usize)
        requires
            self.wf(),
        ensures
            n == self@.len(),
    {
        self.data.len() - self.pos
    }

    /// The byte `i` places ahead, if there is one; nothing is read.
    pub fn peek(&self, i: usize) -> (r: Option<u8>)
        requires
            self.wf(),
        ensures
            r == (if i < self@.len() { Some(self@[i as int]) } else { None }),
    {
        if i < self.data.len() - self.pos {
            Some(self.data[self.pos + i])
        } else {
            None
        }
    }

    /// Reads `n` bytes and drops them.
    pub fn skip(&mut self, n: usize)
        requires
            old(self).wf(),
            n <= old(self)@.len(),
        ensures
            final(self).wf(),
            final(self)@ == old(self)@.skip(n as int),
    {
        self.pos = self.pos + n;
    }

    /// Reads the next byte, if there is one.
    pub fn next_byte(&mut self) -> (r: Option<u8>)
        requires
            old(self).wf(),
        ensures
            final(self).wf(),
            match r {
                Some(b) => old(self)@.len() > 0 && b == old(self)@[0] && final(self)@ == old(self)@.skip(1),
                None => old(self)@.len() == 0 && final(self)@ == old(self)@,
            },
    {
        let r = self.peek(0);
        if r.is_some() {
            self.skip(1);
        }
        r
    }
}

/// Why no character could be read.
#[derive(Copy, Clone, PartialEq, Eq, Structural, Debug)]
pub enum CharReadError {
    /// The bytes end within the encoding of a character.
    UnexpectedEof,
    /// The bytes are not UTF-8; the first byte of the bad sequence is given.
    Utf8(u8),
    /// A byte that is not ASCII, in a document declared as ASCII.
    NotAscii(u8),
    /// A UTF-16 surrogate without its partner.
    Utf16(u16),
}

/// What the front of a byte sequence decodes to.
pub enum Outcome {
    /// A character.
    Char(char),
    /// There are no bytes.
    End,
    /// The bytes end within the encoding of a character.
    Partial,
    /// The bytes do not encode a character.
    Invalid(CharReadError),
}

/// One decoding step: its outcome, the number of bytes it consumed and the
/// encoding in force after it.
pub ghost struct Decoded {
    pub outcome: Outcome,
    pub used: nat,
    pub encoding: Encoding,
}

/// The encoding that applies once a byte order mark at the front of `bytes`
/// has been looked for, and the length of that mark.  `None` where the bytes
/// end within what may be a mark.
pub open spec fn sniffed(enc: Encoding, bytes: Seq<u8>) -> Option<(Encoding, nat)> {
    let fallback = if enc == Encoding::Unknown {
        Encoding::Default
    } else if bytes.len() > 0 && bytes[0] == 0 {
        Encoding::Utf16Be
    } else {
        Encoding::Utf16Le
    };
    if enc != Encoding::Unknown && enc != Encoding::Utf16 {
        Some((enc, 0))
    } else if bytes.len() == 0 {
        Some((enc, 0))
    } else if bytes[0] == 0xFE {
        if bytes.len() < 2 {
            None
        } else if bytes[1] == 0xFF {
            Some((Encoding::Utf16Be, 2))
        } else {
            Some((fallback, 0))
        }
    } else if bytes[0] == 0xFF {
        if bytes.len() < 2 {
            None
        } else if bytes[1] == 0xFE {
            Some((Encoding::Utf16Le, 2))
        } else {
            Some((fallback, 0))
        }
    } else if enc == Encoding::Unknown && bytes[0] == 0xEF {
        if bytes.len() < 2 {
            None
        } else if bytes[1] != 0xBB {
            Some((fallback, 0))
        } else if bytes.len() < 3 {
            None
        } else if bytes[2] == 0xBF {
            Some((Encoding::Utf8, 3))
        } else {
            Some((fallback, 0))
        }
    } else {
        Some((fallback, 0))
    }
}

/// The number of bytes that a UTF-8 sequence starting with `lead` has; 0 where
/// `lead` cannot start one.
pub open spec fn utf8_width(lead: u8) -> nat {
    if is_leading_byte_width_1(lead) {
        1
    } else if is_leading_byte_width_2(lead) {
        2
    } else if is_leading_byte_width_3(lead) {
        3
    } else if is_leading_byte_width_4(lead) {
        4
    } else {
        0
    }
}

/// The first character of UTF-8 bytes.
pub open spec fn utf8_front(bytes: Seq<u8>) -> (Outcome, nat) {
    let width = utf8_width(bytes[0]);
    if width == 0 {
        (Outcome::Invalid(CharReadError::Utf8(bytes[0])), 0)
    } else if bytes.len() < width {
        (Outcome::Partial, 0)
    } else if valid_first_scalar(bytes) {
        (Outcome::Char(decode_first_scalar(bytes) as char), width)
    } else {
        (Outcome::Invalid(CharReadError::Utf8(bytes[0])), 0)
    }
}

/// The 16-bit unit that two bytes make in the given byte order.
pub open spec fn utf16_unit(first: u8, second: u8, big_endian: bool) -> u16 {
    if big_endian {
        (first as u16 * 256 + second as u16) as u16
    } else {
        (second as u16 * 256 + first as u16) as u16
    }
}

/// The first character of UTF-16 bytes.
pub open spec fn utf16_front(bytes: Seq<u8>, big_endian: bool) -> (Outcome, nat) {
    if bytes.len() < 2 {
        (Outcome::Partial, 0)
    } else {
        let unit = utf16_unit(bytes[0], bytes[1], big_endian);
        if unit < 0xD800 || 0xDFFF < unit {
            (Outcome::Char((unit as u32) as char), 2)
        } else if 0xDC00 <= unit {
            (Outcome::Invalid(CharReadError::Utf16(unit)), 0)
        } else if bytes.len() < 4 {
            (Outcome::Partial, 0)
        } else {
            let low = utf16_unit(bytes[2], bytes[3], big_endian);
            if 0xDC00 <= low && low <= 0xDFFF {
                (Outcome::Char((0x10000 + (unit - 0xD800) * 0x400 + (low - 0xDC00)) as u32 as char), 4)
            } else {
                (Outcome::Invalid(CharReadError::Utf16(unit)), 0)
            }
        }
    }
}

/// The first character of `bytes` in an encoding that is settled.
pub open spec fn plain_front(enc: Encoding, bytes: Seq<u8>) -> (Outcome, nat) {
    if bytes.len() == 0 {
        (Outcome::End, 0)
    } else {
        match enc {
            Encoding::Utf8 | Encoding::Default | Encoding::Unknown => utf8_front(bytes),
            Encoding::Latin1 => (Outcome::Char(bytes[0] as char), 1),
            Encoding::Ascii => if bytes[0] < 0x80 {
                (Outcome::Char(bytes[0] as char), 1)
            } else {
                (Outcome::Invalid(CharReadError::NotAscii(bytes[0])), 0)
            },
            Encoding::Utf16Be => utf16_front(bytes, true),
            Encoding::Utf16Le | Encoding::Utf16 => utf16_front(bytes, false),
        }
    }
}

/// One decoding step on `bytes` in encoding `enc`: a byte order mark is
/// looked for while the encoding is open, then one character is decoded.
/// A failure consumes no bytes beyond the mark.
pub open spec fn decoded(enc: Encoding, bytes: Seq<u8>) -> Decoded {
    match sniffed(enc, bytes) {
        None => Decoded { outcome: Outcome::Partial, used: 0, encoding: enc },
        Some((e, mark)) => {
            let (outcome, n) = plain_front(e, bytes.skip(mark as int));
            Decoded { outcome, used: mark + n, encoding: e }
        },
    }
}

/// Decodes characters from a byte source, one at a time, and turns every line
/// ending (`\r\n` or a lone `\r`) into `\n`.
#[derive(Copy, Clone, PartialEq, Eq, Structural, Debug)]
pub struct CharReader {
    /// The encoding in which the bytes are read.
    pub encoding: Encoding,
    /// The last character was `\r`: a `\n` that follows belongs to it.
    pub after_cr: bool,
}

/// The state of a reader after one read, what the read gave, and the number
/// of bytes it consumed.
#[verifier::opaque]
pub open spec fn read(reader: CharReader, bytes: Seq<u8>) -> (CharReader, Outcome, nat) {
    let d = decoded(reader.encoding, bytes);
    match d.outcome {
        Outcome::Char(c) => if c == '\n' && reader.after_cr {
            let e = decoded(d.encoding, bytes.skip(d.used as int));
            match e.outcome {
                Outcome::Char(c2) => (
                    CharReader { encoding: e.encoding, after_cr: c2 == '\r' },
                    Outcome::Char(if c2 == '\r' { '\n' } else { c2 }),
                    d.used + e.used,
                ),
                other => (CharReader { encoding: e.encoding, after_cr: false }, other, d.used + e.used),
            }
        } else {
            (
                CharReader { encoding: d.encoding, after_cr: c == '\r' },
                Outcome::Char(if c == '\r' { '\n' } else { c }),
                d.used,
            )
        },
        other => (CharReader { encoding: d.encoding, after_cr: reader.after_cr }, other, d.used),
    }
}

/// The code point that a UTF-8 sequence of one to three bytes encodes is below
/// 0x10000, and one byte alone encodes itself.
proof fn utf8_code_point_bounds(b0: u8, b1: u8, b2: u8)
    ensures
        b0 < 0x80 ==> (b0 & 0x7F) == b0,
        (((b0 & 0x1F) as u32) << 6) | ((b1 & 0x3f) as u32) <= 0x7FF,
        (((b0 & 0x0F) as u32) << 12) | (((b1 & 0x3f) as u32) << 6) | ((b2 & 0x3f) as u32) <= 0xFFFF,
{
    assert(b0 < 0x80 ==> (b0 & 0x7F) == b0) by (bit_vector);
    assert((((b0 & 0x1F) as u32) << 6) | ((b1 & 0x3f) as u32) <= 0x7FF) by (bit_vector);
    assert((((b0 & 0x0F) as u32) << 12) | (((b1 & 0x3f) as u32) << 6) | ((b2 & 0x3f) as u32) <= 0xFFFF)
        by (bit_vector);
}

/// Reads one UTF-8 character from the front of a source that is not empty.
fn read_utf8(source: &mut ByteSource) -> (r: Result<Option<char>, CharReadError>)
    requires
        old(source).wf(),
        old(source)@.len() > 0,
    ensures
        final(source).wf(),
        r == read_result(utf8_front(old(source)@).0),
        final(source)@ == old(source)@.skip(utf8_front(old(source)@).1 as int),
{
    let ghost bytes = source@;
    assert(bytes.skip(0) == bytes);
    let b0: u8 = source.peek(0).unwrap();
    let width: usize = if b0 < 0x80 {
        1
    } else if 0xc0 <= b0 && b0 <= 0xdf {
        2
    } else if 0xe0 <= b0 && b0 <= 0xef {
        3
    } else if 0xf0 <= b0 && b0 <= 0xf7 {
        4
    } else {
        return Err(CharReadError::Utf8(b0));
    };
    if source.remaining() < width {
        return Err(CharReadError::UnexpectedEof);
    }
    let b1: u8 = if width >= 2 { source.peek(1).unwrap() } else { 0x80 };
    let b2: u8 = if width >= 3 { source.peek(2).unwrap() } else { 0x80 };
    let b3: u8 = if width >= 4 { source.peek(3).unwrap() } else { 0x80 };
    let continued = (0x80 <= b1 && b1 <= 0xbf) && (0x80 <= b2 && b2 <= 0xbf) && (0x80 <= b3 && b3 <= 0xbf);
    if !continued {
        return Err(CharReadError::Utf8(b0));
    }
    let code: u32 = if width == 1 {
        (b0 & 0x7F) as u32
    } else if width == 2 {
        (((b0 & 0x1F) as u32) << 6) | ((b1 & 0x3f) as u32)
    } else if width == 3 {
        (((b0 & 0x0F) as u32) << 12) | (((b1 & 0x3f) as u32) << 6) | ((b2 & 0x3f) as u32)
    } else {
        (((b0 & 0x07) as u32) << 18) | (((b1 & 0x3f) as u32) << 12) | (((b2 & 0x3f) as u32) << 6) | ((b3
            & 0x3f) as u32)
    };
    assert(valid_leading_and_continuation_bytes_first_codepoint(bytes));
    assert(code == decode_first_codepoint(bytes));
    let overlong = (width == 2 && code < 0x80) || (width == 3 && code < 0x800) || (width == 4 && (code < 0x10000
        || code > 0x10ffff));
    if overlong || (0xD800 <= code && code <= 0xDFFF) {
        return Err(CharReadError::Utf8(b0));
    }
    proof {
        utf8_code_point_bounds(b0, b1, b2);
        assert(is_scalar(code));
    }
    let c = char_from_u32(code);
    source.skip(width);
    Ok(c)
}

/// Reads one UTF-16 character from the front of a source that is not empty.
fn read_utf16(source: &mut ByteSource, big_endian: bool) -> (r: Result<Option<char>, CharReadError>)
    requires
        old(source).wf(),
        old(source)@.len() > 0,
    ensures
        final(source).wf(),
        r == read_result(utf16_front(old(source)@, big_endian).0),
        final(source)@ == old(source)@.skip(utf16_front(old(source)@, big_endian).1 as int),
{
    let ghost bytes = source@;
    assert(bytes.skip(0) == bytes);
    if source.remaining() < 2 {
        return Err(CharReadError::UnexpectedEof);
    }
    let unit: u16 = make_unit(source.peek(0).unwrap(), source.peek(1).unwrap(), big_endian);
    if unit < 0xD800 || 0xDFFF < unit {
        let c = char_from_u32(unit as u32);
        source.skip(2);
        return Ok(c);
    }
    if 0xDC00 <= unit {
        return Err(CharReadError::Utf16(unit));
    }
    if source.remaining() < 4 {
        return Err(CharReadError::UnexpectedEof);
    }
    let low: u16 = make_unit(source.peek(2).unwrap(), source.peek(3).unwrap(), big_endian);
    if 0xDC00 <= low && low <= 0xDFFF {
        let code: u32 = 0x10000 + ((unit - 0xD800) as u32) * 0x400 + ((low - 0xDC00) as u32);
        let c = char_from_u32(code);
        source.skip(4);
        Ok(c)
    } else {
        Err(CharReadError::Utf16(unit))
    }
}

/// The 16-bit unit that two bytes make in the given byte order.
fn make_unit(first: u8, second: u8, big_endian: bool) -> (r: u16)
    ensures
        r == utf16_unit(first, second, big_endian),
{
    if big_endian {
        (first as u16) * 256 + (second as u16)
    } else {
        (second as u16) * 256 + (first as u16)
    }
}

impl CharReader {
    /// A reader that knows nothing of the encoding yet.
    pub fn new() -> (r: CharReader)
        ensures
            r.encoding == Encoding::Unknown,
            !r.after_cr,
    {
        CharReader { encoding: Encoding::Unknown, after_cr: false }
    }

    /// Looks for a byte order mark while the encoding is open.  Returns
    /// `false` where the bytes end within what may be a mark.
    fn sniff(&mut self, source: &mut ByteSource) -> (settled: bool)
        requires
            old(source).wf(),
        ensures
            final(source).wf(),
            final(self).after_cr == old(self).after_cr,
            match sniffed(old(self).encoding, old(source)@) {
                None => !settled && *final(self) == *old(self) && final(source)@ == old(source)@,
                Some((e, mark)) => settled && final(self).encoding == e && final(source)@ == old(source)@.skip(
                    mark as int,
                ),
            },
    {
        let ghost bytes = source@;
        assert(bytes.skip(0) == bytes);
        let open = self.encoding == Encoding::Unknown;
        if !open && self.encoding != Encoding::Utf16 {
            return true;
        }
        let b0: u8 = match source.peek(0) {
            Some(b) => b,
            None => {
                return true;
            },
        };
        let fallback = if open {
            Encoding::Default
        } else if b0 == 0 {
            Encoding::Utf16Be
        } else {
            Encoding::Utf16Le
        };
        if b0 == 0xFE || b0 == 0xFF {
            match source.peek(1) {
                None => {
                    return false;
                },
                Some(b1) => {
                    if b0 == 0xFE && b1 == 0xFF {
                        self.encoding = Encoding::Utf16Be;
                        source.skip(2);
                    } else if b0 == 0xFF && b1 == 0xFE {
                        self.encoding = Encoding::Utf16Le;
                        source.skip(2);
                    } else {
                        self.encoding = fallback;
                    }
                    return true;
                },
            }
        }
        if open && b0 == 0xEF {
            match source.peek(1) {
                None => {
                    return false;
                },
                Some(b1) => {
                    if b1 == 0xBB {
                        match source.peek(2) {
                            None => {
                                return false;
                            },
                            Some(b2) => {
                                if b2 == 0xBF {
                                    self.encoding = Encoding::Utf8;
                                    source.skip(3);
                                    return true;
                                }
                            },
                        }
                    }
                },
            }
        }
        self.encoding = fallback;
        true
    }

    /// One decoding step: looks for a byte order mark while the encoding is
    /// open, then decodes one character.
    fn decode(&mut self, source: &mut ByteSource) -> (r: Result<Option<char>, CharReadError>)
        requires
            old(source).wf(),
        ensures
            final(source).wf(),
            final(self).after_cr == old(self).after_cr,
            final(self).encoding == decoded(old(self).encoding, old(source)@).encoding,
            r == read_result(decoded(old(self).encoding, old(source)@).outcome),
            final(source)@ == old(source)@.skip(decoded(old(self).encoding, old(source)@).used as int),
    {
        let ghost bytes = source@;
        assert(bytes.skip(0) == bytes);
        if !self.sniff(source) {
            return Err(CharReadError::UnexpectedEof);
        }
        let ghost rest = source@;
        assert(rest.skip(0) == rest);
        assert(forall|k: int, n: int| 0 <= k <= bytes.len() && 0 <= n <= bytes.len() - k ==> #[trigger] bytes.skip(
            k,
        ).skip(n) == bytes.skip(k + n));
        let b0: u8 = match source.peek(0) {
            Some(b) => b,
            None => {
                return Ok(None);
            },
        };
        match self.encoding {
            Encoding::Utf8 | Encoding::Default | Encoding::Unknown => read_utf8(source),
            Encoding::Latin1 => {
                source.skip(1);
                Ok(Some(b0 as char))
            },
            Encoding::Ascii => {
                if b0 < 0x80 {
                    source.skip(1);
                    Ok(Some(b0 as char))
                } else {
                    Err(CharReadError::NotAscii(b0))
                }
            },
            Encoding::Utf16Be => read_utf16(source, true),
            Encoding::Utf16Le | Encoding::Utf16 => read_utf16(source, false),
        }
    }

    /// Reads the next character from `source`.
    ///
    /// Returns `Ok(None)` where the source has no more bytes.  A line ending,
    /// `\r\n` or a lone `\r`, is returned as one `\n`.  Where the bytes end
    /// within a character the error is `UnexpectedEof` and the partial
    /// character stays in the source, so that reading can go on once the
    /// source has been refilled.
    pub fn next_char_from(&mut self, source: &mut ByteSource) -> (r: Result<Option<char>, CharReadError>)
        requires
            old(source).wf(),
        ensures
            final(source).wf(),
            *final(self) == read(*old(self), old(source)@).0,
            r == read_result(read(*old(self), old(source)@).1),
            final(source)@ == old(source)@.skip(read(*old(self), old(source)@).2 as int),
    {
        let ghost bytes = source@;
        proof {
            reveal(read);
        }
        assert(forall|k: int, n: int| 0 <= k <= bytes.len() && 0 <= n <= bytes.len() - k ==> #[trigger] bytes.skip(
            k,
        ).skip(n) == bytes.skip(k + n));
        let first = self.decode(source);
        let c: char = match first {
            Ok(Some(c)) => c,
            other => {
                return other;
            },
        };
        if c == '\n' && self.after_cr {
            self.after_cr = false;
            match self.decode(source) {
                Ok(Some(c2)) => {
                    if c2 == '\r' {
                        self.after_cr = true;
                        Ok(Some('\n'))
                    } else {
                        Ok(Some(c2))
                    }
                },
                other => other,
            }
        } else if c == '\r' {
            self.after_cr = true;
            Ok(Some('\n'))
        } else {
            self.after_cr = false;
            Ok(Some(c))
        }
    }
}

/// A read that gives a character consumes at least one byte, and no read
/// consumes more bytes than there are.
pub proof fn read_uses_bytes(reader: CharReader, bytes: Seq<u8>)
    ensures
        read(reader, bytes).2 <= bytes.len(),
        read(reader, bytes).1 is Char ==> read(reader, bytes).2 > 0,
{
    reveal(read);
    let d = decoded(reader.encoding, bytes);
    assert(d.used <= bytes.len());
    let e = decoded(d.encoding, bytes.skip(d.used as int));
    assert(e.used <= bytes.skip(d.used as int).len());
}

/// What a read returns for an outcome.
pub open spec fn read_result(outcome: Outcome) -> Result<Option<char>, CharReadError> {
    match outcome {
        Outcome::Char(c) => Ok(Some(c)),
        Outcome::End => Ok(None),
        Outcome::Partial => Err(CharReadError::UnexpectedEof),
        Outcome::Invalid(e) => Err(e),
    }
}

} // verus!
