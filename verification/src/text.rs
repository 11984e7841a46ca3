//! Text elements: positioned labels, titles and descriptions.

use vstd::prelude::*;

use simple_xml_serialize::XMLElement;

use crate::coordinate::Coordinate;
use crate::fmt::{rat_str, rat_to_string};
use crate::rat::Rat;
use crate::xml::{has_attr, xml_attr, xml_attrs, xml_chardata, xml_new, xml_tag, xml_text};

verus! {

/// A piece of text anchored (middle-aligned) at a position.
#[derive(Debug)]
pub struct Label {
    pub location: Coordinate,
    pub text: String,
    pub size: Option<Rat>,
}

impl Label {
    pub open spec fn wf(self) -> bool {
        self.location.wf() && (self.size matches Some(s) ==> s.wf())
    }

    /// A label with the given text and no explicit font size.
    pub fn new(location: Coordinate, text: &str) -> (r: Label)
        requires
            location.wf(),
        ensures
            r.wf(),
            r.location == location,
            r.text@ == text@,
            r.size is None,
    {
        Label { location, text: text.to_owned(), size: None }
    }

    /// The label with the font size set; everything else is unchanged.
    pub fn size(self, size: Rat) -> (r: Label)
        requires
            size.wf(),
        ensures
            r.location == self.location,
            r.text == self.text,
            r.size == Some(size),
    {
        Label { size: Some(size), ..self }
    }

    /// The label as a markup element: a `text` node anchored at the
    /// exact position, carrying the label's text, with the font size
    /// when one is set.
    pub fn to_xml(self) -> (r: XMLElement)
        requires
            self.wf(),
        ensures
            xml_tag(r) == "text"@,
            xml_chardata(r) == self.text@,
            has_attr(r, "text-anchor"@, "middle"@),
            has_attr(r, "x"@, rat_str(self.location.x@)),
            has_attr(r, "y"@, rat_str(self.location.y@)),
            self.size matches Some(sz) ==> has_attr(r, "font-size"@, rat_str(sz@)),
    {
        let mut e = xml_new("text");
        e = xml_attr(e, "text-anchor", "middle".to_owned());
        e = xml_attr(e, "x", rat_to_string(&self.location.x));
        e = xml_attr(e, "y", rat_to_string(&self.location.y));
        proof {
            assert(xml_attrs(e)[0] == ("text-anchor"@, "middle"@));
            assert(xml_attrs(e)[1] == ("x"@, rat_str(self.location.x@)));
            assert(xml_attrs(e)[2] == ("y"@, rat_str(self.location.y@)));
        }
        match self.size {
            Some(s) => {
                e = xml_attr(e, "font-size", rat_to_string(&s));
                proof {
                    assert(xml_attrs(e)[0] == ("text-anchor"@, "middle"@));
                    assert(xml_attrs(e)[1] == ("x"@, rat_str(self.location.x@)));
                    assert(xml_attrs(e)[2] == ("y"@, rat_str(self.location.y@)));
                    assert(xml_attrs(e)[3] == ("font-size"@, rat_str(s@)));
                }
            },
            _ => {},
        }
        xml_text(e, self.text)
    }
}

/// A title element (shown by renderers as a tooltip).
#[derive(Debug)]
pub struct Title(pub String);

impl Title {
    /// The title as a markup element, carrying its text.
    pub fn to_xml(self) -> (r: XMLElement)
        ensures
            xml_tag(r) == "title"@,
            xml_chardata(r) == self.0@,
    {
        xml_text(xml_new("title"), self.0)
    }
}

/// A description element.
#[derive(Debug)]
pub struct Description(pub String);

impl Description {
    /// The description as a markup element, carrying its text.
    pub fn to_xml(self) -> (r: XMLElement)
        ensures
            xml_tag(r) == "desc"@,
            xml_chardata(r) == self.0@,
    {
        xml_text(xml_new("desc"), self.0)
    }
}

} // verus!
