//! Attributes of elements.

use vstd::prelude::*;
use vstd::string::*;
use crate::name::{Name, NameView, OwnedName};

verus! {

/// An attribute as a value: its name and its value.
pub ghost struct AttributeView {
    pub name: NameView,
    pub value: Seq<char>,
}

/// An attribute whose parts are borrowed.
#[derive(Copy, Clone, PartialEq, Eq, Debug)]
pub struct Attribute<'a> {
    /// The name of the attribute.
    pub name: Name<'a>,
    /// The value of the attribute.
    pub value: &'a str,
}

impl<'a> View for Attribute<'a> {
    type V = AttributeView;

    open spec fn view(&self) -> AttributeView {
        AttributeView { name: self.name@, value: self.value@ }
    }
}

impl<'a> Attribute<'a> {
    /// An attribute with the given name and value.
    pub fn new(name: Name<'a>, value: &'a str) -> (r: Attribute<'a>)
        ensures
            r.name == name,
            r.value == value,
    {
        Attribute { name, value }
    }

    /// A copy of the attribute that owns its parts.
    pub fn to_owned(&self) -> (r: OwnedAttribute)
        ensures
            r@ == self@,
    {
        OwnedAttribute { name: self.name.to_owned(), value: String::from_str(self.value) }
    }
}

/// An attribute that owns its parts.
#[derive(PartialEq, Eq, Debug)]
pub struct OwnedAttribute {
    /// The name of the attribute.
    pub name: OwnedName,
    /// The value of the attribute.
    pub value: String,
}

impl View for OwnedAttribute {
    type V = AttributeView;

    open spec fn view(&self) -> AttributeView {
        AttributeView { name: self.name@, value: self.value@ }
    }
}

impl Clone for OwnedAttribute {
    fn clone(&self) -> (r: Self)
        ensures
            r == *self,
    {
        OwnedAttribute { name: self.name.clone(), value: self.value.clone() }
    }
}

impl OwnedAttribute {
    /// An attribute with the given name and value.
    pub fn new(name: OwnedName, value: &str) -> (r: OwnedAttribute)
        ensures
            r.name == name,
            r.value@ == value@,
    {
        OwnedAttribute { name, value: String::from_str(value) }
    }

    /// The attribute with its parts borrowed.
    pub fn borrow(&self) -> (r: Attribute<'_>)
        ensures
            r@ == self@,
    {
        Attribute { name: self.name.borrow(), value: self.value.as_str() }
    }
}

/// The views of a sequence of attributes.
pub open spec fn attribute_views(attributes: Seq<OwnedAttribute>) -> Seq<AttributeView> {
    attributes.map_values(|a: OwnedAttribute| a@)
}

} // verus!
