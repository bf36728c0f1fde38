//! Attribute values: what the store holds under one attribute name.

use serde_dynamo::AttributeValue;
use vstd::prelude::*;

verus! {

/// The value of one attribute of a stored item.
///
/// The book layout writes strings and nulls only. Whatever else an item
/// read from the table may hold (a number, a boolean, binary data, a set,
/// a list, a map) is `Other`: it is told apart from a string, never read.
#[derive(Debug, PartialEq, Eq)]
pub enum Attribute {
    /// A string attribute.
    S(String),
    /// The null attribute.
    Null,
    /// An attribute of any other type.
    Other,
}

/// An attribute value as the contracts speak of it.
pub enum AttributeView {
    S(Seq<char>),
    Null,
    Other,
}

impl View for Attribute {
    type V = AttributeView;

    open spec fn view(&self) -> AttributeView {
        match self {
            Attribute::S(text) => AttributeView::S(text@),
            Attribute::Null => AttributeView::Null,
            Attribute::Other => AttributeView::Other,
        }
    }
}

impl Clone for Attribute {
    /// The same attribute value.
    fn clone(&self) -> (copy: Attribute)
        ensures
            copy@ == self@,
    {
        match self {
            Attribute::S(text) => Attribute::S(text.clone()),
            Attribute::Null => Attribute::Null,
            Attribute::Other => Attribute::Other,
        }
    }
}

/// The attribute that stands for an optional string: the string itself, or
/// null where there is none.
pub open spec fn attribute_of(value: Option<Seq<char>>) -> AttributeView {
    match value {
        Some(text) => AttributeView::S(text),
        None => AttributeView::Null,
    }
}

/// The view of an optional string.
pub open spec fn optional_text(value: Option<String>) -> Option<Seq<char>> {
    match value {
        Some(text) => Some(text@),
        None => None,
    }
}

/// The error type of `serde_dynamo`, declared so that a call into that
/// crate can hand it back. It is opaque here: nothing is claimed of it.
#[verifier::external_type_specification]
#[verifier::external_body]
pub struct ExSerializationError(serde_dynamo::Error);

/// `serde_dynamo::to_attribute_value`, called on an optional string, with
/// the attribute value of `serde_dynamo` as its target; what it returns is
/// handed on variant by variant.
///
/// Trusted: the call succeeds, and it gives the string attribute that holds
/// the same text for `Some`, and the null attribute for `None`. The
/// serializer of that crate writes a string with `serialize_str`, which
/// returns the `S` variant holding a copy of it, writes `None` with
/// `serialize_none`, which returns `Null(true)`, and hands `Some` on to the
/// value inside; none of the three returns an error.
#[verifier::external_body]
fn to_attribute_value(value: Option<String>) -> (made: Result<Attribute, serde_dynamo::Error>)
    ensures
        made is Ok,
        made->Ok_0@ == attribute_of(optional_text(value)),
{
    let made: AttributeValue = serde_dynamo::to_attribute_value(value)?;
    Ok(match made {
        AttributeValue::S(text) => Attribute::S(text),
        AttributeValue::Null(_) => Attribute::Null,
        AttributeValue::N(_) | AttributeValue::Bool(_) | AttributeValue::B(_) => Attribute::Other,
        AttributeValue::M(_) | AttributeValue::L(_) => Attribute::Other,
        AttributeValue::Ss(_) | AttributeValue::Ns(_) | AttributeValue::Bs(_) => Attribute::Other,
    })
}

/// The attribute under which an optional string is stored.
pub fn to_attribute(value: Option<String>) -> (attribute: Attribute)
    ensures
        attribute@ == attribute_of(optional_text(value)),
{
    match to_attribute_value(value) {
        Ok(attribute) => attribute,
        Err(_) => unreached(),
    }
}

/// The string that an attribute holds, if it is a string attribute.
pub fn as_text(attribute: &Attribute) -> (text: Option<&String>)
    ensures
        match text {
            Some(text) => attribute@ == AttributeView::S(text@),
            None => !(attribute@ is S),
        },
{
    match attribute {
        Attribute::S(text) => Some(text),
        _ => None,
    }
}

} // verus!
