//! Items shared by the reader and the writer: positions, versions and the
//! character classes of the XML grammar.

use vstd::prelude::*;
use vstd::string::*;
use crate::text::{chars_are, push_decimal, string_from_chars};

verus! {

/// A position in a text: a row and a column, both counted from zero, in
/// Unicode scalar values.
#[derive(Copy, Clone, PartialEq, Eq, Structural, Debug)]
pub struct TextPosition {
    /// Row, counted from zero.
    pub row: u64,
    /// Column, counted from zero.
    pub column: u64,
}

impl TextPosition {
    /// The start of a text: row 0, column 0.
    pub fn new() -> (p: TextPosition)
        ensures
            p.row == 0,
            p.column == 0,
    {
        TextPosition { row: 0, column: 0 }
    }

    /// The position `count` columns further on the same row.
    pub open spec fn advanced(self, count: u8) -> TextPosition {
        TextPosition {
            row: self.row,
            column: if self.column + count <= u64::MAX { (self.column + count) as u64 } else { u64::MAX },
        }
    }

    /// The start of the following row.
    pub open spec fn next_line(self) -> TextPosition {
        TextPosition {
            row: if self.row < u64::MAX { (self.row + 1) as u64 } else { u64::MAX },
            column: 0,
        }
    }

    /// Moves `count` columns to the right, stopping at the largest column.
    pub fn advance(&mut self, count: u8)
        ensures
            *final(self) == old(self).advanced(count),
    {
        let c: u64 = count as u64;
        if self.column <= u64::MAX - c {
            self.column = self.column + c;
        } else {
            self.column = u64::MAX;
        }
    }

    /// Moves to the start of the next row, stopping at the largest row.
    pub fn new_line(&mut self)
        ensures
            *final(self) == old(self).next_line(),
    {
        self.column = 0;
        if self.row < u64::MAX {
            self.row = self.row + 1;
        }
    }
}

impl TextPosition {
    /// The position as text: the row and the column, each counted from one,
    /// with a colon between them.
    pub open spec fn text(self) -> Seq<char> {
        crate::text::decimal(self.row as nat + 1).push(':') + crate::text::decimal(self.column as nat + 1)
    }

    /// Appends the position, as `row:column` counted from one, to `out`.
    pub fn push_to(&self, out: &mut Vec<char>)
        ensures
            final(out)@ == old(out)@ + self.text(),
    {
        let ghost before = out@;
        push_decimal(out, self.row as u128 + 1);
        out.push(':');
        push_decimal(out, self.column as u128 + 1);
        assert(out@ == before + self.text());
    }
}

/// The version of XML that a document declares.
#[derive(PartialEq, Eq, Debug)]
pub enum XmlVersion {
    /// Version 1.0.
    Version10,
    /// Version 1.1.
    Version11,
    /// Another version of the form `1.x`, kept as it was written.
    Version1x(String),
}

/// A version of XML as a value.
pub ghost enum VersionView {
    Version10,
    Version11,
    Version1x(Seq<char>),
}

impl View for XmlVersion {
    type V = VersionView;

    open spec fn view(&self) -> VersionView {
        match *self {
            XmlVersion::Version10 => VersionView::Version10,
            XmlVersion::Version11 => VersionView::Version11,
            XmlVersion::Version1x(s) => VersionView::Version1x(s@),
        }
    }
}

impl VersionView {
    /// The version as it is written in a declaration.
    pub open spec fn text(self) -> Seq<char> {
        match self {
            VersionView::Version10 => "1.0"@,
            VersionView::Version11 => "1.1"@,
            VersionView::Version1x(s) => s,
        }
    }
}

impl Clone for XmlVersion {
    fn clone(&self) -> (r: Self)
        ensures
            r == *self,
            r@ == self@,
    {
        match self {
            XmlVersion::Version10 => XmlVersion::Version10,
            XmlVersion::Version11 => XmlVersion::Version11,
            XmlVersion::Version1x(s) => XmlVersion::Version1x(s.clone()),
        }
    }
}

/// Whether `s` is `1.` followed by one or more decimal digits.
pub open spec fn is_version_1x(s: Seq<char>) -> bool {
    &&& s.len() >= 3
    &&& s[0] == '1'
    &&& s[1] == '.'
    &&& forall|i: int| 2 <= i < s.len() ==> '0' <= #[trigger] s[i] <= '9'
}

impl XmlVersion {
    /// The version as it is written in a declaration.
    pub open spec fn text(&self) -> Seq<char> {
        self@.text()
    }

    /// The version as it is written in a declaration.
    pub fn as_str(&self) -> (r: &str)
        ensures
            r@ == self.text(),
    {
        match self {
            XmlVersion::Version10 => "1.0",
            XmlVersion::Version11 => "1.1",
            XmlVersion::Version1x(s) => s.as_str(),
        }
    }

    /// The version that `s` names, if it names one: `1.0`, `1.1`, and, where
    /// `any_minor` is set, every other `1.` followed by digits.
    pub open spec fn parsed(s: Seq<char>, any_minor: bool) -> Option<VersionView> {
        if s == "1.0"@ {
            Some(VersionView::Version10)
        } else if s == "1.1"@ {
            Some(VersionView::Version11)
        } else if any_minor && is_version_1x(s) {
            Some(VersionView::Version1x(s))
        } else {
            None
        }
    }

    /// Reads a version number.  `1.0` and `1.1` are always accepted; another
    /// `1.x` only where `any_minor` is set.
    pub fn parse(s: &Vec<char>, any_minor: bool) -> (r: Option<XmlVersion>)
        ensures
            match r {
                Some(v) => Self::parsed(s@, any_minor) == Some(v@),
                None => Self::parsed(s@, any_minor) is None,
            },
    {
        proof {
            reveal_strlit("1.0");
            reveal_strlit("1.1");
            assert("1.0"@[2] == '0' && "1.1"@[2] == '1');
        }
        if chars_are(s, "1.0") {
            return Some(XmlVersion::Version10);
        }
        if chars_are(s, "1.1") {
            return Some(XmlVersion::Version11);
        }
        if !any_minor || s.len() < 3 || s[0] != '1' || s[1] != '.' {
            return None;
        }
        let mut i: usize = 2;
        while i < s.len()
            invariant
                2 <= i <= s.len(),
                s@ != "1.0"@,
                s@ != "1.1"@,
                forall|j: int| 2 <= j < i ==> '0' <= #[trigger] s@[j] <= '9',
            decreases s.len() - i,
        {
            let c: char = s[i];
            if !('0' <= c && c <= '9') {
                assert(!('0' <= s@[i as int] <= '9'));
                return None;
            }
            i = i + 1;
        }
        Some(XmlVersion::Version1x(string_from_chars(s)))
    }
}

/// White space of the XML grammar: space, tab, line feed, carriage return.
pub open spec fn is_whitespace(c: char) -> bool {
    c == ' ' || c == '\t' || c == '\n' || c == '\r'
}

/// A character that XML 1.0 allows in a document.
pub open spec fn is_xml10(c: char) -> bool {
    let u = c as u32;
    u == 0x9 || u == 0xA || u == 0xD || (0x20 <= u && u <= 0xD7FF) || (0xE000 <= u && u <= 0xFFFD) || 0x10000 <= u
}

/// A character that XML 1.1 allows in a document.
pub open spec fn is_xml11(c: char) -> bool {
    let u = c as u32;
    (0x1 <= u && u <= 0xD7FF) || (0xE000 <= u && u <= 0xFFFD) || 0x10000 <= u
}

/// A character that XML 1.1 allows in a document without a character
/// reference.
pub open spec fn is_xml11_not_restricted(c: char) -> bool {
    let u = c as u32;
    is_xml11(c) && !((0x1 <= u && u <= 0x8) || (0xB <= u && u <= 0xC) || (0xE <= u && u <= 0x1F) || (0x7F <= u
        && u <= 0x84) || (0x86 <= u && u <= 0x9F))
}

/// A character that may start a name.
pub open spec fn is_name_start(c: char) -> bool {
    let u = c as u32;
    c == ':' || c == '_' || (0x41 <= u && u <= 0x5A) || (0x61 <= u && u <= 0x7A) || (0xC0 <= u && u <= 0xD6) || (0xD8
        <= u && u <= 0xF6) || (0xF8 <= u && u <= 0x2FF) || (0x370 <= u && u <= 0x37D) || (0x37F <= u && u <= 0x1FFF)
        || (0x200C <= u && u <= 0x200D) || (0x2070 <= u && u <= 0x218F) || (0x2C00 <= u && u <= 0x2FEF) || (0x3001
        <= u && u <= 0xD7FF) || (0xF900 <= u && u <= 0xFDCF) || (0xFDF0 <= u && u <= 0xFFFD) || (0x10000 <= u && u
        <= 0xEFFFF)
}

/// A character that may stand in a name.
pub open spec fn is_name(c: char) -> bool {
    let u = c as u32;
    is_name_start(c) || c == '-' || c == '.' || (0x30 <= u && u <= 0x39) || u == 0xB7 || (0x300 <= u && u <= 0x36F)
        || (0x203F <= u && u <= 0x2040)
}

/// Whether `c` is white space of the XML grammar.
pub fn is_whitespace_char(c: char) -> (r: bool)
    ensures
        r == is_whitespace(c),
{
    c == ' ' || c == '\t' || c == '\n' || c == '\r'
}

/// Whether every character of `s` is white space.
pub fn is_whitespace_str(s: &Vec<char>) -> (r: bool)
    ensures
        r == (forall|i: int| 0 <= i < s@.len() ==> is_whitespace(#[trigger] s@[i])),
{
    let mut i: usize = 0;
    while i < s.len()
        invariant
            i <= s.len(),
            forall|j: int| 0 <= j < i ==> is_whitespace(#[trigger] s@[j]),
        decreases s.len() - i,
    {
        if !is_whitespace_char(s[i]) {
            return false;
        }
        i = i + 1;
    }
    true
}

/// Whether XML 1.0 allows `c` in a document.
pub fn is_xml10_char(c: char) -> (r: bool)
    ensures
        r == is_xml10(c),
{
    let u: u32 = c as u32;
    u == 0x9 || u == 0xA || u == 0xD || (0x20 <= u && u <= 0xD7FF) || (0xE000 <= u && u <= 0xFFFD) || 0x10000 <= u
}

/// Whether XML 1.1 allows `c` in a document.
pub fn is_xml11_char(c: char) -> (r: bool)
    ensures
        r == is_xml11(c),
{
    let u: u32 = c as u32;
    (0x1 <= u && u <= 0xD7FF) || (0xE000 <= u && u <= 0xFFFD) || 0x10000 <= u
}

/// Whether XML 1.1 allows `c` in a document without a character reference.
pub fn is_xml11_char_not_restricted(c: char) -> (r: bool)
    ensures
        r == is_xml11_not_restricted(c),
{
    let u: u32 = c as u32;
    is_xml11_char(c) && !((0x1 <= u && u <= 0x8) || (0xB <= u && u <= 0xC) || (0xE <= u && u <= 0x1F) || (0x7F <= u
        && u <= 0x84) || (0x86 <= u && u <= 0x9F))
}

/// Whether `c` may start a name.
pub fn is_name_start_char(c: char) -> (r: bool)
    ensures
        r == is_name_start(c),
{
    let u: u32 = c as u32;
    c == ':' || c == '_' || (0x41 <= u && u <= 0x5A) || (0x61 <= u && u <= 0x7A) || (0xC0 <= u && u <= 0xD6) || (0xD8
        <= u && u <= 0xF6) || (0xF8 <= u && u <= 0x2FF) || (0x370 <= u && u <= 0x37D) || (0x37F <= u && u <= 0x1FFF)
        || (0x200C <= u && u <= 0x200D) || (0x2070 <= u && u <= 0x218F) || (0x2C00 <= u && u <= 0x2FEF) || (0x3001
        <= u && u <= 0xD7FF) || (0xF900 <= u && u <= 0xFDCF) || (0xFDF0 <= u && u <= 0xFFFD) || (0x10000 <= u && u
        <= 0xEFFFF)
}

/// Whether `c` may stand in a name.
pub fn is_name_char(c: char) -> (r: bool)
    ensures
        r == is_name(c),
{
    let u: u32 = c as u32;
    is_name_start_char(c) || c == '-' || c == '.' || (0x30 <= u && u <= 0x39) || u == 0xB7 || (0x300 <= u && u
        <= 0x36F) || (0x203F <= u && u <= 0x2040)
}

} // verus!
