//! Trusted interface to the external XML parser.
//!
//! Each chunk's descriptor is an XML sub-document.  The parsed tree is kept
//! opaque: the reader only ever extracts the text of named children of the
//! root element, and that extraction is a pure function of the document
//! bytes, which the uninterpreted names below stand for.

use vstd::prelude::*;

verus! {

#[verifier::external_type_specification]
#[verifier::external_body]
pub struct ExElement(xmltree::Element);

#[verifier::external_type_specification]
#[verifier::external_body]
pub struct ExParseError(xmltree::ParseError);

/// Relies on `xmltree::Element`'s `Clone`; nothing is assumed of the copy.
pub assume_specification[ <xmltree::Element as Clone>::clone ](e: &xmltree::Element) -> (r:
    xmltree::Element);

/// Whether the external XML parser accepts the document `doc`.
pub uninterp spec fn xml_parses(doc: Seq<u8>) -> bool;

/// The text content of the child named `name` of the root element of `doc`;
/// `None` when `doc` does not parse, the root has no such child, or the child
/// holds no text.
pub uninterp spec fn xml_child_text(doc: Seq<u8>, name: Seq<char>) -> Option<Seq<char>>;

/// Relies on `xmltree::Element::parse`: whether a byte sequence parses as an
/// XML document is a function of the bytes alone.
#[verifier::external_body]
pub fn parse_xml(doc: &[u8]) -> (r: Result<xmltree::Element, xmltree::ParseError>)
    ensures
        r is Ok <==> xml_parses(doc@),
{
    xmltree::Element::parse(doc)
}

/// Relies on `xmltree::Element::parse`, `Element::get_child` and
/// `Element::get_text`: the text of the named child of the root element of an
/// XML document is a function of the document bytes and the name alone.
#[verifier::external_body]
pub fn child_text(doc: &[u8], name: &str) -> (r: Option<String>)
    ensures
        r matches Some(s) ==> xml_child_text(doc@, name@) == Some(s@),
        r is None ==> xml_child_text(doc@, name@) is None,
{
    let root = xmltree::Element::parse(doc).ok()?;
    let child = root.get_child(name)?;
    let text = child.get_text()?;
    Some(text.into_owned())
}

} // verus!
