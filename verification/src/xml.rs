//! Trusted boundary to the markup serializer.
//!
//! An `XMLElement` is a value of the outside serializer crate. Four of
//! its aspects are given trusted names so that the rendering functions
//! can promise what they build: the tag, the attribute list in
//! insertion order, the child list in insertion order, and the
//! character data (the serializer stores all of them verbatim). Only
//! the pretty-printing itself stays unmodeled: it belongs to the
//! serializer and is out of scope here.

use vstd::prelude::*;

use simple_xml_serialize::XMLElement;

verus! {

#[verifier::external_type_specification]
#[verifier::external_body]
pub struct ExXmlElement(XMLElement);

/// The element's tag name (the serializer's `name` field).
pub uninterp spec fn xml_tag(e: XMLElement) -> Seq<char>;

/// The element's attribute list in insertion order: name/value pairs
/// (the serializer's `attrs` field; both strings are stored verbatim).
pub uninterp spec fn xml_attrs(e: XMLElement) -> Seq<(Seq<char>, Seq<char>)>;

/// The element's children in insertion order (the serializer's
/// `contents` field, `None` read as empty).
pub uninterp spec fn xml_children(e: XMLElement) -> Seq<XMLElement>;

/// The element's character data (the serializer's `text` field, `None`
/// read as empty).
pub uninterp spec fn xml_chardata(e: XMLElement) -> Seq<char>;

/// The element carries the attribute `name="value"`.
pub open spec fn has_attr(e: XMLElement, name: Seq<char>, value: Seq<char>) -> bool {
    exists|i: int| 0 <= i < xml_attrs(e).len() && #[trigger] xml_attrs(e)[i] == (name, value)
}

/// An attribute survives the appending of another one.
pub proof fn lemma_has_attr_push(
    e1: XMLElement,
    e2: XMLElement,
    name: Seq<char>,
    value: Seq<char>,
    q: (Seq<char>, Seq<char>),
)
    requires
        xml_attrs(e2) == xml_attrs(e1).push(q),
        has_attr(e1, name, value),
    ensures
        has_attr(e2, name, value),
{
    let i: int = choose|i: int|
        0 <= i < xml_attrs(e1).len() && #[trigger] xml_attrs(e1)[i] == (name, value);
    assert(xml_attrs(e2)[i] == (name, value));
}

/// The attribute just appended is carried.
pub proof fn lemma_has_attr_last(
    e1: XMLElement,
    e2: XMLElement,
    name: Seq<char>,
    value: Seq<char>,
)
    requires
        xml_attrs(e2) == xml_attrs(e1).push((name, value)),
    ensures
        has_attr(e2, name, value),
{
    assert(xml_attrs(e2)[xml_attrs(e1).len() as int] == (name, value));
}

/// Relies on `XMLElement::new`: a fresh element with the given tag
/// name, no attributes, no children, no character data.
#[verifier::external_body]
pub(crate) fn xml_new(name: &str) -> (r: XMLElement)
    ensures
        xml_tag(r) == name@,
        xml_attrs(r) == Seq::<(Seq<char>, Seq<char>)>::empty(),
        xml_children(r) == Seq::<XMLElement>::empty(),
        xml_chardata(r) == Seq::<char>::empty(),
{
    XMLElement::new(name)
}

/// Relies on `XMLElement::attr`/`add_attr`: appends the name/value pair
/// to the attribute list, storing both strings unchanged; everything
/// else is untouched.
#[verifier::external_body]
pub(crate) fn xml_attr(e: XMLElement, name: &str, value: String) -> (r: XMLElement)
    ensures
        xml_tag(r) == xml_tag(e),
        xml_attrs(r) == xml_attrs(e).push((name@, value@)),
        xml_children(r) == xml_children(e),
        xml_chardata(r) == xml_chardata(e),
{
    e.attr(name, value)
}

/// Relies on `XMLElement::element`/`add_element`: appends the child to
/// the element's contents; everything else is untouched.
#[verifier::external_body]
pub(crate) fn xml_element(e: XMLElement, child: XMLElement) -> (r: XMLElement)
    ensures
        xml_tag(r) == xml_tag(e),
        xml_attrs(r) == xml_attrs(e),
        xml_children(r) == xml_children(e).push(child),
        xml_chardata(r) == xml_chardata(e),
{
    e.element(child)
}

/// Relies on `XMLElement::elements`/`add_elements`: appends the
/// children to the element's contents, in order; everything else is
/// untouched.
#[verifier::external_body]
pub(crate) fn xml_elements(e: XMLElement, children: Vec<XMLElement>) -> (r: XMLElement)
    ensures
        xml_tag(r) == xml_tag(e),
        xml_attrs(r) == xml_attrs(e),
        xml_children(r) == xml_children(e) + children@,
        xml_chardata(r) == xml_chardata(e),
{
    e.elements(children)
}

/// Relies on `XMLElement::add_element` and the `From<&XMLElement>` impl
/// (a derived clone, so a value equal to the child): appends a copy of
/// the child to the element's contents in place; everything else is
/// untouched.
#[verifier::external_body]
pub(crate) fn xml_add_element_ref(e: &mut XMLElement, child: &XMLElement)
    ensures
        xml_tag(*final(e)) == xml_tag(*old(e)),
        xml_attrs(*final(e)) == xml_attrs(*old(e)),
        xml_children(*final(e)) == xml_children(*old(e)).push(*child),
        xml_chardata(*final(e)) == xml_chardata(*old(e)),
{
    e.add_element(child);
}

/// Relies on `XMLElement::text`/`set_text`: sets the element's
/// character data to the given string, verbatim; everything else is
/// untouched.
#[verifier::external_body]
pub(crate) fn xml_text(e: XMLElement, text: String) -> (r: XMLElement)
    ensures
        xml_tag(r) == xml_tag(e),
        xml_attrs(r) == xml_attrs(e),
        xml_children(r) == xml_children(e),
        xml_chardata(r) == text@,
{
    e.text(text)
}

/// Relies on `XMLElement::to_string_pretty`: the rendered markup with
/// the given newline and indentation unit.
#[verifier::external_body]
pub(crate) fn xml_to_string_pretty(e: &XMLElement, newline: &str, indent: &str) -> String {
    e.to_string_pretty(newline, indent)
}

} // verus!
