//! The handler for start tags.

use vstd::prelude::*;
use vstd::string::*;
use crate::attribute::OwnedAttribute;
use crate::common::{is_name_start_char, is_whitespace_char};
use crate::name::OwnedName;
use crate::namespace::{NS_NO_PREFIX, NS_XMLNS_PREFIX, NS_XMLNS_URI, NS_XML_PREFIX, NS_XML_URI};
use crate::reader::error::{Error, SyntaxError};
use crate::reader::events::XmlEvent;
use crate::reader::lexer::Token;
use crate::reader::parser::{
    boxed, read_name, read_value, take_name, NameRead, OpeningTagSubstate, PullParser, QualifiedNameTarget, State,
    ValueRead,
};
use crate::text::{chars_are, str_eq, string_from_chars};

verus! {

/// Whether an attribute with the written name of `name`, prefix and local
/// name, is among `attributes`.
pub fn has_attribute(attributes: &Vec<OwnedAttribute>, name: &OwnedName) -> (r: bool)
    ensures
        r == exists|i: int|
            0 <= i < crate::attribute::attribute_views(attributes@).len() && (#[trigger] crate::attribute::attribute_views(
                attributes@,
            )[i]).name.local_name == name@.local_name && crate::attribute::attribute_views(attributes@)[i].name.prefix
                == name@.prefix,
{
    let ghost views = crate::attribute::attribute_views(attributes@);
    let mut i: usize = 0;
    while i < attributes.len()
        invariant
            i <= attributes.len(),
            views == crate::attribute::attribute_views(attributes@),
            forall|j: int|
                0 <= j < i ==> !((#[trigger] views[j]).name.local_name == name@.local_name && views[j].name.prefix
                    == name@.prefix),
        decreases attributes.len() - i,
    {
        let other = attributes[i].name.borrow();
        let this = name.borrow();
        assert(views[i as int] == attributes@[i as int]@);
        if str_eq(other.local_name, this.local_name) && crate::name::opt_str_eq(other.prefix, this.prefix) {
            return true;
        }
        i = i + 1;
    }
    false
}

impl PullParser {
    /// Handles a token of the name of the element.
    fn opening_name(&mut self, t: Token, s: OpeningTagSubstate) -> (r: Option<Result<XmlEvent, Error>>)
        requires
            old(self).ready(),
            old(self).st == State::InsideOpeningTag(s),
            (s == OpeningTagSubstate::InsideName),
        ensures
            Self::stepped(*old(self), *final(self), t, r),
            Self::follows(*final(self), r, crate::reader::parser::model::inside_opening_tag(old(self).model(), t, s)),
    {
        match s {
            OpeningTagSubstate::InsideName => {
                let pos = self.lexer.position();
                match read_name(
                    &mut self.buf,
                    &mut self.read_prefix_separator,
                    t,
                    QualifiedNameTarget::OpeningTagNameTarget,
                    self.config.max_name_length,
                    pos,
                ) {
                    NameRead::More => None,
                    NameRead::Failed(e) => Some(Err(e)),
                    NameRead::Name(name) => {
                        if let Some(prefix) = &name.prefix {
                            if str_eq(prefix.as_str(), NS_XML_PREFIX) || str_eq(prefix.as_str(), NS_XMLNS_PREFIX) {
                                return Some(self.error(SyntaxError::InvalidNamePrefix(Box::new(prefix.clone()))));
                            }
                        }
                        self.data.element_name = name;
                        match t {
                            Token::TagEnd => self.emit_start_element(t, false),
                            Token::EmptyTagEnd => self.emit_start_element(t, true),
                            _ => {
                                self.st = State::InsideOpeningTag(OpeningTagSubstate::InsideTag);
                                None
                            },
                        }
                    },
                }
            },
            _ => None,
        }
    }

    /// Handles a token between the attributes of a start tag.
    fn opening_tag(&mut self, t: Token, s: OpeningTagSubstate) -> (r: Option<Result<XmlEvent, Error>>)
        requires
            old(self).ready(),
            old(self).st == State::InsideOpeningTag(s),
            (s == OpeningTagSubstate::InsideTag),
        ensures
            Self::stepped(*old(self), *final(self), t, r),
            Self::follows(*final(self), r, crate::reader::parser::model::inside_opening_tag(old(self).model(), t, s)),
    {
        match s {
            OpeningTagSubstate::InsideTag => match t {
                Token::TagEnd => self.emit_start_element(t, false),
                Token::EmptyTagEnd => self.emit_start_element(t, true),
                Token::Character(c) => {
                    if is_whitespace_char(c) {
                        None
                    } else if is_name_start_char(c) {
                        if self.buf.len() > self.config.max_name_length {
                            return Some(self.error(SyntaxError::ExceededConfiguredLimit));
                        }
                        self.buf.push(c);
                        self.st = State::InsideOpeningTag(OpeningTagSubstate::InsideAttributeName);
                        None
                    } else {
                        Some(self.error(SyntaxError::UnexpectedTokenInOpeningTag(t)))
                    }
                },
                _ => Some(self.error(SyntaxError::UnexpectedTokenInOpeningTag(t))),
            },
            _ => None,
        }
    }

    /// Handles a token of the name of an attribute and of what follows it.
    fn opening_attribute_name(&mut self, t: Token, s: OpeningTagSubstate) -> (r: Option<Result<XmlEvent, Error>>)
        requires
            old(self).ready(),
            old(self).st == State::InsideOpeningTag(s),
            (s == OpeningTagSubstate::InsideAttributeName || s == OpeningTagSubstate::AfterAttributeName),
        ensures
            Self::stepped(*old(self), *final(self), t, r),
            Self::follows(*final(self), r, crate::reader::parser::model::inside_opening_tag(old(self).model(), t, s)),
    {
        match s {
            OpeningTagSubstate::InsideAttributeName => {
                let pos = self.lexer.position();
                match read_name(
                    &mut self.buf,
                    &mut self.read_prefix_separator,
                    t,
                    QualifiedNameTarget::AttributeNameTarget,
                    self.config.max_name_length,
                    pos,
                ) {
                    NameRead::More => None,
                    NameRead::Failed(e) => Some(Err(e)),
                    NameRead::Name(name) => {
                        if has_attribute(&self.data.attributes, &name) {
                            return Some(self.error(SyntaxError::RedefinedAttribute(Box::new(name.to_string()))));
                        }
                        self.data.attr_name = name;
                        match t {
                            Token::EqualsSign => {
                                self.st = State::InsideOpeningTag(OpeningTagSubstate::InsideAttributeValue);
                            },
                            _ => {
                                self.st = State::InsideOpeningTag(OpeningTagSubstate::AfterAttributeName);
                            },
                        }
                        None
                    },
                }
            },
            OpeningTagSubstate::AfterAttributeName => match t {
                Token::EqualsSign => {
                    self.st = State::InsideOpeningTag(OpeningTagSubstate::InsideAttributeValue);
                    None
                },
                Token::Character(c) => {
                    if is_whitespace_char(c) {
                        None
                    } else {
                        Some(self.error(SyntaxError::UnexpectedTokenInOpeningTag(t)))
                    }
                },
                _ => Some(self.error(SyntaxError::UnexpectedTokenInOpeningTag(t))),
            },
            _ => None,
        }
    }

    /// Handles a token of the value of an attribute and of what follows it.
    fn opening_attribute_value(&mut self, t: Token, s: OpeningTagSubstate) -> (r: Option<Result<XmlEvent, Error>>)
        requires
            old(self).ready(),
            old(self).st == State::InsideOpeningTag(s),
            (s == OpeningTagSubstate::InsideAttributeValue || s == OpeningTagSubstate::AfterAttributeValue),
        ensures
            Self::stepped(*old(self), *final(self), t, r),
            Self::follows(*final(self), r, crate::reader::parser::model::inside_opening_tag(old(self).model(), t, s)),
    {
        match s {
            OpeningTagSubstate::InsideAttributeValue => {
                let pos = self.lexer.position();
                let version11 = self.is_version11();
                match read_value(
                    &mut self.buf,
                    &mut self.data.quote,
                    t,
                    self.config.max_attribute_length,
                    version11,
                    pos,
                ) {
                    ValueRead::More => None,
                    ValueRead::Failed(e) => Some(Err(e)),
                    ValueRead::Reference => {
                        self.state_after_reference = self.st;
                        self.st = State::InsideReference;
                        None
                    },
                    ValueRead::Value(value) => self.attribute_read(value),
                }
            },
            OpeningTagSubstate::AfterAttributeValue => match t {
                Token::Character(c) => {
                    if is_whitespace_char(c) {
                        self.st = State::InsideOpeningTag(OpeningTagSubstate::InsideTag);
                        None
                    } else {
                        Some(self.error(SyntaxError::UnexpectedTokenInOpeningTag(t)))
                    }
                },
                Token::TagEnd => self.emit_start_element(t, false),
                Token::EmptyTagEnd => self.emit_start_element(t, true),
                _ => Some(self.error(SyntaxError::UnexpectedTokenInOpeningTag(t))),
            },
            _ => None,
        }
    }

    /// Handles a token within a start tag.
    ///
    /// An attribute named `xmlns` or with the prefix `xmlns` declares a
    /// namespace for the element; every other attribute is kept for the
    /// event.  The end of the tag gives the start of the element.
    pub(crate) fn inside_opening_tag(&mut self, t: Token, s: OpeningTagSubstate) -> (r: Option<Result<XmlEvent, Error>>)
        requires
            old(self).ready(),
            old(self).st == State::InsideOpeningTag(s),
        ensures
            Self::stepped(*old(self), *final(self), t, r),
            Self::follows(*final(self), r, crate::reader::parser::model::inside_opening_tag(old(self).model(), t, s)),
    {
        match s {
            OpeningTagSubstate::InsideName => self.opening_name(t, s),
            OpeningTagSubstate::InsideTag => self.opening_tag(t, s),
            OpeningTagSubstate::InsideAttributeName | OpeningTagSubstate::AfterAttributeName => self.opening_attribute_name(t, s),
            OpeningTagSubstate::InsideAttributeValue | OpeningTagSubstate::AfterAttributeValue => self.opening_attribute_value(t, s),
        }
    }

    /// Takes in an attribute whose value has been read: a declaration of a
    /// namespace goes into the frame of the element, every other attribute
    /// is kept for the event.
    ///
    /// The prefix `xmlns` cannot be declared, and `xml` only with its own
    /// namespace; the reserved prefixes and namespaces cannot be the default
    /// namespace.  A prefix that is declared with an empty value is not
    /// bound within the element.
    fn attribute_read(&mut self, value: Vec<char>) -> (r: Option<Result<XmlEvent, Error>>)
        requires
            old(self).ready(),
            old(self).st == State::InsideOpeningTag(OpeningTagSubstate::InsideAttributeValue),
        ensures
            final(self).wf(),
            final(self).next_event is None,
            final(self).final_result == old(self).final_result,
            final(self).config == old(self).config,
            final(self).lexer == old(self).lexer,
            final(self).est == old(self).est,
            final(self).in_opening_tag(),
            final(self).scopes() == old(self).scopes(),
            match r {
                None => true,
                Some(e) => e matches Err(x) && !(x.kind is UnexpectedEof),
            },
            old(self).buf@ == Seq::<char>::empty() && old(self).data.quote is None ==> Self::follows(
                *final(self),
                r,
                crate::reader::parser::model::attribute_read(old(self).model(), value@),
            ),
    {
        let name = take_name(&mut self.data.attr_name);
        let declares_prefix = match &name.prefix {
            Some(p) => str_eq(p.as_str(), NS_XMLNS_PREFIX),
            None => false,
        };
        let declares_default = name.prefix.is_none() && str_eq(name.local_name.as_str(), NS_XMLNS_PREFIX);
        let text = string_from_chars(&value);
        if declares_prefix {
            let ln = name.local_name.as_str();
            if str_eq(ln, NS_XMLNS_PREFIX) {
                return Some(self.error(SyntaxError::CannotRedefineXmlnsPrefix));
            }
            if str_eq(ln, NS_XML_PREFIX) && !chars_are(&value, NS_XML_URI) {
                return Some(self.error(SyntaxError::CannotRedefineXmlPrefix));
            }
            self.put_binding(ln, text.as_str());
        } else if declares_default {
            if chars_are(&value, NS_XMLNS_PREFIX) || chars_are(&value, NS_XML_PREFIX) || chars_are(&value, NS_XML_URI)
                || chars_are(&value, NS_XMLNS_URI) {
                return Some(self.error(SyntaxError::InvalidDefaultNamespace(boxed(&value))));
            }
            self.put_binding(NS_NO_PREFIX, text.as_str());
        } else {
            if self.data.attributes.len() >= self.config.max_attributes {
                return Some(self.error(SyntaxError::ExceededConfiguredLimit));
            }
            self.data.attributes.push(OwnedAttribute { name, value: text });
            assert(crate::attribute::attribute_views(self.data.attributes@) =~= crate::attribute::attribute_views(
                old(self).data.attributes@,
            ).push(crate::attribute::AttributeView { name: old(self).data.attr_name@, value: value@ }));
        }
        self.st = State::InsideOpeningTag(OpeningTagSubstate::AfterAttributeValue);
        None
    }

    /// Binds a prefix in the frame of the element whose start tag is being
    /// read, unless the tag has bound it already.
    fn put_binding(&mut self, prefix: &str, uri: &str)
        requires
            old(self).wf(),
            old(self).in_opening_tag(),
        ensures
            *final(self) == (PullParser { nst: final(self).nst, ..*old(self) }),
            final(self).nst.wf(),
            final(self).nst@.len() == old(self).nst@.len(),
            final(self).nst@.drop_last() == old(self).nst@.drop_last(),
            final(self).nst@ == crate::reader::parser::model::bind(old(self).nst@, prefix@, uri@),
    {
        let put = self.nst.put(prefix, uri);
        proof {
            if put {
                assert(self.nst@.drop_last() =~= old(self).nst@.drop_last());
            }
        }
    }
}

} // verus!
