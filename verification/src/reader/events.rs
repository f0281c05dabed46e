//! The events that the reader gives.

use vstd::prelude::*;
use vstd::string::*;
use crate::attribute::{Attribute, AttributeView, OwnedAttribute};
use crate::common::XmlVersion;
use crate::name::{NameView, OwnedName};
use crate::namespace::{bound, Bindings, Namespace};
use crate::reader::error::Error;

verus! {

/// A part of an XML document, as the reader reports it.
#[derive(PartialEq, Eq, Debug)]
#[allow(inconsistent_fields)]
pub enum XmlEvent {
    /// The start of the document.  It is reported once, before every other
    /// event, whether the document has a declaration or not.
    StartDocument {
        /// The version of XML; 1.0 where the document does not say.
        version: XmlVersion,
        /// The encoding that the document declares, or else the one in which
        /// it is read.
        encoding: String,
        /// The standalone declaration.
        standalone: Option<bool>,
    },
    /// The end of the document.  Nothing follows it.
    EndDocument,
    /// A processing instruction.
    ProcessingInstruction {
        /// The target of the instruction.
        name: String,
        /// The content of the instruction.
        data: Option<String>,
    },
    /// The start of an element.
    StartElement {
        /// The name of the element.
        name: OwnedName,
        /// The attributes of the element, in document order.
        attributes: Vec<OwnedAttribute>,
        /// The namespaces in scope at the element.
        namespace: Namespace,
    },
    /// The end of an element.
    EndElement {
        /// The name of the element.
        name: OwnedName,
    },
    /// The contents of a CDATA section.
    CData(String),
    /// A comment.
    Comment(String),
    /// Character data.
    Characters(String),
    /// Character data that is white space only.
    Whitespace(String),
    /// A document type declaration.
    Doctype {
        /// The name of the root element that is declared.
        name: String,
        /// The declaration as it stands in the document.
        syntax: String,
        /// The public identifier.
        public_id: Option<String>,
        /// The system identifier.
        system_id: Option<String>,
    },
}

/// An event as a value.
#[allow(inconsistent_fields)]
pub ghost enum EventView {
    StartDocument { version: Seq<char>, encoding: Seq<char>, standalone: Option<bool> },
    EndDocument,
    ProcessingInstruction { name: Seq<char>, data: Option<Seq<char>> },
    StartElement { name: NameView, attributes: Seq<AttributeView>, namespace: Bindings },
    EndElement { name: NameView },
    CData(Seq<char>),
    Comment(Seq<char>),
    Characters(Seq<char>),
    Whitespace(Seq<char>),
    Doctype { name: Seq<char>, syntax: Seq<char>, public_id: Option<Seq<char>>, system_id: Option<Seq<char>> },
}

/// The characters of an optional string.
pub open spec fn opt_view(s: Option<String>) -> Option<Seq<char>> {
    match s {
        Some(x) => Some(x@),
        None => None,
    }
}

/// A copy of an optional string.
pub fn clone_opt(s: &Option<String>) -> (r: Option<String>)
    ensures
        r == *s,
{
    match s {
        Some(x) => Some(x.clone()),
        None => None,
    }
}

/// A copy of a list of attributes.
pub fn clone_attributes(attributes: &Vec<OwnedAttribute>) -> (r: Vec<OwnedAttribute>)
    ensures
        r@.len() == attributes@.len(),
        forall|i: int| 0 <= i < r@.len() ==> r@[i] == attributes@[i],
        crate::attribute::attribute_views(r@) == crate::attribute::attribute_views(attributes@),
{
    let mut r: Vec<OwnedAttribute> = Vec::new();
    let mut i: usize = 0;
    while i < attributes.len()
        invariant
            i <= attributes.len(),
            r@.len() == i,
            forall|j: int| 0 <= j < i ==> r@[j] == attributes@[j],
        decreases attributes.len() - i,
    {
        r.push(attributes[i].clone());
        i = i + 1;
    }
    assert(crate::attribute::attribute_views(r@) =~= crate::attribute::attribute_views(attributes@));
    r
}

impl View for XmlEvent {
    type V = EventView;

    open spec fn view(&self) -> EventView {
        match *self {
            XmlEvent::StartDocument { version, encoding, standalone } => EventView::StartDocument {
                version: version.text(),
                encoding: encoding@,
                standalone,
            },
            XmlEvent::EndDocument => EventView::EndDocument,
            XmlEvent::ProcessingInstruction { name, data } => EventView::ProcessingInstruction {
                name: name@,
                data: opt_view(data),
            },
            XmlEvent::StartElement { name, attributes, namespace } => EventView::StartElement {
                name: name@,
                attributes: crate::attribute::attribute_views(attributes@),
                namespace: namespace@,
            },
            XmlEvent::EndElement { name } => EventView::EndElement { name: name@ },
            XmlEvent::CData(s) => EventView::CData(s@),
            XmlEvent::Comment(s) => EventView::Comment(s@),
            XmlEvent::Characters(s) => EventView::Characters(s@),
            XmlEvent::Whitespace(s) => EventView::Whitespace(s@),
            XmlEvent::Doctype { name, syntax, public_id, system_id } => EventView::Doctype {
                name: name@,
                syntax: syntax@,
                public_id: opt_view(public_id),
                system_id: opt_view(system_id),
            },
        }
    }
}

impl Clone for XmlEvent {
    fn clone(&self) -> (r: Self)
        ensures
            r@ == self@,
    {
        match self {
            XmlEvent::StartDocument { version, encoding, standalone } => XmlEvent::StartDocument {
                version: version.clone(),
                encoding: encoding.clone(),
                standalone: *standalone,
            },
            XmlEvent::EndDocument => XmlEvent::EndDocument,
            XmlEvent::ProcessingInstruction { name, data } => XmlEvent::ProcessingInstruction {
                name: name.clone(),
                data: clone_opt(data),
            },
            XmlEvent::StartElement { name, attributes, namespace } => XmlEvent::StartElement {
                name: name.clone(),
                attributes: clone_attributes(attributes),
                namespace: namespace.clone(),
            },
            XmlEvent::EndElement { name } => XmlEvent::EndElement { name: name.clone() },
            XmlEvent::CData(s) => XmlEvent::CData(s.clone()),
            XmlEvent::Comment(s) => XmlEvent::Comment(s.clone()),
            XmlEvent::Characters(s) => XmlEvent::Characters(s.clone()),
            XmlEvent::Whitespace(s) => XmlEvent::Whitespace(s.clone()),
            XmlEvent::Doctype { name, syntax, public_id, system_id } => XmlEvent::Doctype {
                name: name.clone(),
                syntax: syntax.clone(),
                public_id: clone_opt(public_id),
                system_id: clone_opt(system_id),
            },
        }
    }
}

/// What the reader gives for one poll, as a value: an event, or an error
/// with its position and its kind.
pub ghost enum Polled {
    Event(EventView),
    Failure(crate::common::TextPosition, crate::reader::error::KindView),
}

/// The value of a result of the reader.
pub open spec fn polled(r: Result<XmlEvent, Error>) -> Polled {
    match r {
        Ok(e) => Polled::Event(e@),
        Err(e) => Polled::Failure(e.pos, e.kind@),
    }
}

/// A copy of a result of the reader.
pub fn clone_result(r: &Result<XmlEvent, Error>) -> (c: Result<XmlEvent, Error>)
    ensures
        polled(c) == polled(*r),
        c is Ok <==> r is Ok,
{
    match r {
        Ok(e) => Ok(e.clone()),
        Err(e) => Err(e.clone()),
    }
}

/// Whether a name is resolved against a namespace: the namespace binds the
/// prefix of the name, or the empty prefix where the name has none, and the
/// name belongs to what the prefix is bound to.  A prefix that is bound to
/// the empty URI is not bound; the empty prefix bound to the empty URI means
/// no namespace.
pub open spec fn resolved(name: NameView, namespace: Bindings) -> bool {
    match bound(namespace, name.prefix_repr()) {
        Some(uri) => if uri.len() == 0 {
            name.prefix is None && name.namespace is None
        } else {
            name.namespace == Some(uri)
        },
        None => false,
    }
}

/// Whether the name of an attribute is resolved against a namespace: a name
/// with a prefix as the name of an element is; a name without prefix belongs
/// to no namespace, whatever the default namespace.
pub open spec fn attribute_resolved(name: NameView, namespace: Bindings) -> bool {
    if name.prefix is Some {
        resolved(name, namespace)
    } else {
        name.namespace is None
    }
}

impl XmlEvent {
    /// The event for the writer that writes what this event reports.  The end
    /// of the document has none; white space is written as character data.
    pub fn as_writer_event(&self) -> (r: Option<crate::writer::events::XmlEvent<'_>>)
        ensures
            (self is EndDocument) <==> r is None,
            match (*self, r) {
                (
                    XmlEvent::StartDocument { version, encoding, standalone },
                    Some(crate::writer::events::XmlEvent::StartDocument { version: v, encoding: e, standalone: s }),
                ) => v == version && e is Some && e->0@ == encoding@ && s == standalone,
                (
                    XmlEvent::ProcessingInstruction { name, data },
                    Some(crate::writer::events::XmlEvent::ProcessingInstruction { name: n, data: d }),
                ) => n@ == name@ && (match (data, d) {
                    (Some(x), Some(y)) => x@ == y@,
                    (None, None) => true,
                    _ => false,
                }),
                (
                    XmlEvent::StartElement { name, attributes, namespace },
                    Some(crate::writer::events::XmlEvent::StartElement { name: n, attributes: a, namespace: ns }),
                ) => n@ == name@ && crate::writer::emitter::views_of(a@) == crate::attribute::attribute_views(
                    attributes@,
                ) && ns@ == namespace@,
                (XmlEvent::EndElement { name }, Some(crate::writer::events::XmlEvent::EndElement { name: n })) => n
                    is Some && n->0@ == name@,
                (XmlEvent::CData(s), Some(crate::writer::events::XmlEvent::CData(t))) => t@ == s@,
                (XmlEvent::Comment(s), Some(crate::writer::events::XmlEvent::Comment(t))) => t@ == s@,
                (XmlEvent::Characters(s), Some(crate::writer::events::XmlEvent::Characters(t))) => t@ == s@,
                (XmlEvent::Whitespace(s), Some(crate::writer::events::XmlEvent::Characters(t))) => t@ == s@,
                (XmlEvent::Doctype { syntax, .. }, Some(crate::writer::events::XmlEvent::Doctype(t))) => t@
                    == syntax@,
                (XmlEvent::EndDocument, None) => true,
                _ => false,
            },
    {
        match self {
            XmlEvent::StartDocument { version, encoding, standalone } => Some(
                crate::writer::events::XmlEvent::StartDocument {
                    version: version.clone(),
                    encoding: Some(encoding.as_str()),
                    standalone: *standalone,
                },
            ),
            XmlEvent::EndDocument => None,
            XmlEvent::ProcessingInstruction { name, data } => Some(
                crate::writer::events::XmlEvent::ProcessingInstruction {
                    name: name.as_str(),
                    data: match data {
                        Some(d) => Some(d.as_str()),
                        None => None,
                    },
                },
            ),
            XmlEvent::StartElement { name, attributes, namespace } => {
                let mut borrowed: Vec<Attribute<'_>> = Vec::new();
                let mut i: usize = 0;
                while i < attributes.len()
                    invariant
                        i <= attributes.len(),
                        borrowed@.len() == i,
                        forall|j: int| 0 <= j < i ==> borrowed@[j]@ == attributes@[j]@,
                    decreases attributes.len() - i,
                {
                    borrowed.push(attributes[i].borrow());
                    i = i + 1;
                }
                assert(crate::writer::emitter::views_of(borrowed@) =~= crate::attribute::attribute_views(
                    attributes@,
                ));
                Some(
                    crate::writer::events::XmlEvent::StartElement {
                        name: name.borrow(),
                        attributes: borrowed,
                        namespace: namespace.clone(),
                    },
                )
            },
            XmlEvent::EndElement { name } => Some(
                crate::writer::events::XmlEvent::EndElement { name: Some(name.borrow()) },
            ),
            XmlEvent::CData(s) => Some(crate::writer::events::XmlEvent::CData(s.as_str())),
            XmlEvent::Comment(s) => Some(crate::writer::events::XmlEvent::Comment(s.as_str())),
            XmlEvent::Characters(s) => Some(crate::writer::events::XmlEvent::Characters(s.as_str())),
            XmlEvent::Whitespace(s) => Some(crate::writer::events::XmlEvent::Characters(s.as_str())),
            XmlEvent::Doctype { syntax, .. } => Some(crate::writer::events::XmlEvent::Doctype(syntax.as_str())),
        }
    }
}

} // verus!
