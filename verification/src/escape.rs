//! Escaping of characters that cannot stand for themselves in character
//! data or in attribute values.

use vstd::prelude::*;
use vstd::string::*;
use crate::text::{push_char, str_chars};

verus! {

/// Where a text is going to stand.
#[derive(Copy, Clone, PartialEq, Eq, Structural, Debug)]
pub enum Context {
    /// Character data between tags.
    PcData,
    /// The value of an attribute, between double quotes.
    Attribute,
}

/// The entity that stands for `c` in the given context, if `c` cannot stand
/// for itself there.
pub open spec fn entity(c: char, context: Context) -> Option<Seq<char>> {
    if c == '<' {
        Some("&lt;"@)
    } else if c == '>' {
        Some("&gt;"@)
    } else if c == '&' {
        Some("&amp;"@)
    } else if c == '\r' {
        Some("&#xD;"@)
    } else if context == Context::Attribute && c == '"' {
        Some("&quot;"@)
    } else if context == Context::Attribute && c == '\'' {
        Some("&apos;"@)
    } else if context == Context::Attribute && c == '\n' {
        Some("&#xA;"@)
    } else if context == Context::Attribute && c == '\t' {
        Some("&#x9;"@)
    } else {
        None
    }
}

/// `s` with every character that cannot stand for itself replaced by its
/// entity.
pub open spec fn escaped(s: Seq<char>, context: Context) -> Seq<char>
    decreases s.len(),
{
    if s.len() == 0 {
        Seq::empty()
    } else {
        escaped(s.drop_last(), context) + (match entity(s.last(), context) {
            Some(e) => e,
            None => seq![s.last()],
        })
    }
}

/// The entity that stands for `c` in the given context.
pub fn entity_for(c: char, context: Context) -> (r: Option<&'static str>)
    ensures
        match r {
            Some(e) => entity(c, context) == Some(e@),
            None => entity(c, context) is None,
        },
{
    let attribute = context == Context::Attribute;
    if c == '<' {
        Some("&lt;")
    } else if c == '>' {
        Some("&gt;")
    } else if c == '&' {
        Some("&amp;")
    } else if c == '\r' {
        Some("&#xD;")
    } else if attribute && c == '"' {
        Some("&quot;")
    } else if attribute && c == '\'' {
        Some("&apos;")
    } else if attribute && c == '\n' {
        Some("&#xA;")
    } else if attribute && c == '\t' {
        Some("&#x9;")
    } else {
        None
    }
}

/// Appends `s` to `out`, with every character that cannot stand for itself in
/// the given context replaced by its entity.
pub fn push_escaped(out: &mut String, s: &str, context: Context)
    ensures
        final(out)@ == old(out)@ + escaped(s@, context),
{
    let chars = str_chars(s);
    let ghost before = out@;
    let mut i: usize = 0;
    assert(chars@.take(0) == Seq::<char>::empty());
    assert(before + escaped(chars@.take(0), context) == before);
    while i < chars.len()
        invariant
            i <= chars.len(),
            chars@ == s@,
            out@ == before + escaped(chars@.take(i as int), context),
        decreases chars.len() - i,
    {
        let c: char = chars[i];
        proof {
            let t = chars@.take(i + 1);
            assert(t.drop_last() == chars@.take(i as int));
            assert(t.last() == c);
        }
        let ghost prev = out@;
        match entity_for(c, context) {
            Some(e) => {
                out.append(e);
                assert(out@ == before + (escaped(chars@.take(i as int), context) + e@));
            },
            None => {
                push_char(out, c);
                assert(out@ == before + (escaped(chars@.take(i as int), context) + seq![c]));
            },
        }
        i = i + 1;
    }
    assert(chars@.take(chars@.len() as int) == chars@);
}

/// `s` escaped for character data.
pub fn escape_str_pcdata(s: &str) -> (r: String)
    ensures
        r@ == escaped(s@, Context::PcData),
{
    let mut r = String::new();
    push_escaped(&mut r, s, Context::PcData);
    assert(Seq::<char>::empty() + escaped(s@, Context::PcData) == escaped(s@, Context::PcData));
    r
}

/// `s` escaped for an attribute value.
pub fn escape_str_attribute(s: &str) -> (r: String)
    ensures
        r@ == escaped(s@, Context::Attribute),
{
    let mut r = String::new();
    push_escaped(&mut r, s, Context::Attribute);
    assert(Seq::<char>::empty() + escaped(s@, Context::Attribute) == escaped(s@, Context::Attribute));
    r
}

} // verus!
