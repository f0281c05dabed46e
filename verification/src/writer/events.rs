//! The events that the writer takes.

use vstd::prelude::*;
use vstd::string::*;
use crate::attribute::Attribute;
use crate::common::XmlVersion;
use crate::name::Name;
use crate::namespace::{bound, Namespace, NS_NO_PREFIX};

verus! {

/// A part of an XML document, for the writer to write.
#[derive(Debug, PartialEq, Eq)]
#[allow(inconsistent_fields)]
pub enum XmlEvent<'a> {
    /// The document declaration.  It comes before every other event; where it
    /// is left out, the writer writes a default one if it is set up to.
    StartDocument {
        /// The version of XML.
        version: XmlVersion,
        /// The encoding that is declared; `UTF-8` where none is given.
        encoding: Option<&'a str>,
        /// The standalone declaration.
        standalone: Option<bool>,
    },
    /// A processing instruction.
    ProcessingInstruction {
        /// The target of the instruction.
        name: &'a str,
        /// The content of the instruction.
        data: Option<&'a str>,
    },
    /// The start of an element.
    StartElement {
        /// The name of the element.
        name: Name<'a>,
        /// The attributes of the element, in the order in which they are
        /// written.
        attributes: Vec<Attribute<'a>>,
        /// The namespaces in scope at the element.  Those that are not in
        /// scope already are declared on the element.
        namespace: Namespace,
    },
    /// The end of an element.
    EndElement {
        /// The name of the element.  Where it is left out, the writer uses the
        /// name of the element that is open.
        name: Option<Name<'a>>,
    },
    /// A CDATA section.
    CData(&'a str),
    /// A comment.
    Comment(&'a str),
    /// Character data, which the writer escapes.
    Characters(&'a str),
    /// Text that the writer writes as it is.
    RawCharacters(&'a str),
    /// A document type declaration, written as it is, `<` and `>` included.
    Doctype(&'a str),
}

impl<'a> XmlEvent<'a> {
    /// An event for a processing instruction.
    pub fn processing_instruction(name: &'a str, data: Option<&'a str>) -> (r: XmlEvent<'a>)
        ensures
            r == (XmlEvent::ProcessingInstruction { name, data }),
    {
        XmlEvent::ProcessingInstruction { name, data }
    }

    /// A builder for the start of an element named `name`, which is read as a
    /// prefix, a colon and a local name, or as a local name alone.
    pub fn start_element(name: &'a str) -> (r: StartElementBuilder<'a>)
        ensures
            r.name@ == crate::name::split_name(name@),
            r.attributes@.len() == 0,
            r.namespace@.len() == 0,
            r.namespace.wf(),
    {
        StartElementBuilder { name: Name::from_str(name), attributes: Vec::new(), namespace: Namespace::empty() }
    }

    /// A builder for the end of an element.  No name is needed where the
    /// writer remembers the names of the open elements.
    pub fn end_element() -> (r: EndElementBuilder<'a>)
        ensures
            r.name is None,
    {
        EndElementBuilder { name: None }
    }

    /// An event for a CDATA section.
    pub fn cdata(data: &'a str) -> (r: XmlEvent<'a>)
        ensures
            r == XmlEvent::CData(data),
    {
        XmlEvent::CData(data)
    }

    /// An event for character data.
    pub fn characters(data: &'a str) -> (r: XmlEvent<'a>)
        ensures
            r == XmlEvent::Characters(data),
    {
        XmlEvent::Characters(data)
    }

    /// An event for text that is written as it is.
    pub fn raw_characters(data: &'a str) -> (r: XmlEvent<'a>)
        ensures
            r == XmlEvent::RawCharacters(data),
    {
        XmlEvent::RawCharacters(data)
    }

    /// An event for a comment.
    pub fn comment(data: &'a str) -> (r: XmlEvent<'a>)
        ensures
            r == XmlEvent::Comment(data),
    {
        XmlEvent::Comment(data)
    }
}

impl<'a> From<&'a str> for XmlEvent<'a> {
    fn from(s: &'a str) -> (r: Self) {
        XmlEvent::Characters(s)
    }
}

impl<'a> vstd::std_specs::convert::FromSpecImpl<&'a str> for XmlEvent<'a> {
    open spec fn obeys_from_spec() -> bool {
        true
    }

    open spec fn from_spec(s: &'a str) -> Self {
        XmlEvent::Characters(s)
    }
}

/// A builder for the end of an element.
pub struct EndElementBuilder<'a> {
    pub name: Option<Name<'a>>,
}

impl<'a> EndElementBuilder<'a> {
    /// Gives the name of the element that ends.  The writer checks it against
    /// the name of the open element where it remembers names.
    pub fn name(self, name: &'a str) -> (r: EndElementBuilder<'a>)
        ensures
            r.name is Some,
            r.name->0@ == crate::name::split_name(name@),
    {
        EndElementBuilder { name: Some(Name::from_str(name)) }
    }
}

impl<'a> From<EndElementBuilder<'a>> for XmlEvent<'a> {
    fn from(b: EndElementBuilder<'a>) -> (r: Self) {
        XmlEvent::EndElement { name: b.name }
    }
}

impl<'a> vstd::std_specs::convert::FromSpecImpl<EndElementBuilder<'a>> for XmlEvent<'a> {
    open spec fn obeys_from_spec() -> bool {
        true
    }

    open spec fn from_spec(b: EndElementBuilder<'a>) -> Self {
        XmlEvent::EndElement { name: b.name }
    }
}

/// A builder for the start of an element.
pub struct StartElementBuilder<'a> {
    pub name: Name<'a>,
    pub attributes: Vec<Attribute<'a>>,
    pub namespace: Namespace,
}

impl<'a> StartElementBuilder<'a> {
    /// Adds an attribute.  Attributes are written in the order in which they
    /// are added, and are not checked for duplicates.
    pub fn attr(self, name: &'a str, value: &'a str) -> (r: StartElementBuilder<'a>)
        ensures
            r.name == self.name,
            r.namespace == self.namespace,
            r.attributes@.len() == self.attributes@.len() + 1,
            r.attributes@.drop_last() == self.attributes@,
            r.attributes@.last().name@ == crate::name::split_name(name@),
            r.attributes@.last().value == value,
    {
        let mut b = self;
        b.attributes.push(Attribute::new(Name::from_str(name), value));
        assert(b.attributes@.drop_last() == self.attributes@);
        b
    }

    /// Binds `prefix` to `uri` for the element, unless the builder binds the
    /// prefix already.
    pub fn ns(self, prefix: &str, uri: &str) -> (r: StartElementBuilder<'a>)
        requires
            self.namespace.wf(),
        ensures
            r.namespace.wf(),
            r.name == self.name,
            r.attributes == self.attributes,
            r.namespace@ == (if bound(self.namespace@, prefix@) is None {
                self.namespace@.push((prefix@, uri@))
            } else {
                self.namespace@
            }),
    {
        let mut b = self;
        b.namespace.put(prefix, uri);
        b
    }

    /// Makes `uri` the default namespace for the element, unless the builder
    /// has one already.
    pub fn default_ns(self, uri: &str) -> (r: StartElementBuilder<'a>)
        requires
            self.namespace.wf(),
        ensures
            r.namespace.wf(),
            r.name == self.name,
            r.attributes == self.attributes,
            r.namespace@ == (if bound(self.namespace@, NS_NO_PREFIX@) is None {
                self.namespace@.push((NS_NO_PREFIX@, uri@))
            } else {
                self.namespace@
            }),
    {
        let mut b = self;
        b.namespace.put(NS_NO_PREFIX, uri);
        b
    }
}

impl<'a> From<StartElementBuilder<'a>> for XmlEvent<'a> {
    fn from(b: StartElementBuilder<'a>) -> (r: Self) {
        XmlEvent::StartElement { name: b.name, attributes: b.attributes, namespace: b.namespace }
    }
}

impl<'a> vstd::std_specs::convert::FromSpecImpl<StartElementBuilder<'a>> for XmlEvent<'a> {
    open spec fn obeys_from_spec() -> bool {
        true
    }

    open spec fn from_spec(b: StartElementBuilder<'a>) -> Self {
        XmlEvent::StartElement { name: b.name, attributes: b.attributes, namespace: b.namespace }
    }
}

} // verus!
