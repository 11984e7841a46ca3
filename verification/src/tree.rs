//! A tree symbol: trunk and crown circles with a label.

use vstd::prelude::*;

use simple_xml_serialize::XMLElement;

use crate::color::Color;
use crate::coordinate::Coordinate;
use crate::error::NumericError;
use crate::graphic::Circle;
use crate::fmt::rat_str;
use crate::rat::{frac_fits, frac_from_int, frac_mul, frac_recip, Rat};
use crate::text::{Description, Label, Title};
use crate::xml::{has_attr, xml_attr, xml_attrs, xml_chardata, xml_children, xml_element, xml_new, xml_tag};

verus! {

/// Halving the trunk (and crown, when given) diameter stays within the
/// representation, so the tree is renderable.
pub open spec fn tree_xml_fits(t: Tree) -> bool {
    &&& frac_fits(frac_mul(t.trunk_diameter@, frac_recip(frac_from_int(2))))
    &&& (t.crown_diameter matches Some(d) ==> frac_fits(
        frac_mul(d@, frac_recip(frac_from_int(2))),
    ))
}

/// A tree: its trunk and optional crown diameter, where it stands, and
/// where its label goes.
#[derive(Debug)]
pub struct Tree {
    pub name: String,
    pub species: String,
    pub trunk_diameter: Rat,
    pub crown_diameter: Option<Rat>,
    pub location: Coordinate,
    pub label_location: Coordinate,
}

impl Tree {
    pub open spec fn wf(self) -> bool {
        &&& self.trunk_diameter.wf()
        &&& (self.crown_diameter matches Some(d) ==> d.wf())
        &&& self.location.wf()
        &&& self.label_location.wf()
    }

    /// The tree as a markup group: the label, a title and a description
    /// carrying the tree's name, the crown circle (at half the crown
    /// diameter) when one is given, and the trunk circle at half the
    /// trunk diameter.
    pub fn to_xml(self) -> (r: Result<XMLElement, NumericError>)
        requires
            self.wf(),
        ensures
            r matches Ok(g) ==> xml_tag(g) == "g"@ && has_attr(g, "stroke-width"@, "0.2"@)
                && has_attr(g, "id"@, "tree-"@ + self.name@) && xml_children(g).len() == (
            if self.crown_diameter is Some {
                5int
            } else {
                4int
            }) && xml_tag(xml_children(g)[0]) == "text"@ && xml_chardata(xml_children(g)[0])
                == self.name@ && xml_tag(xml_children(g)[1]) == "title"@ && xml_chardata(
                xml_children(g)[1],
            ) == "Tree "@ + self.name@ && xml_tag(xml_children(g)[2]) == "desc"@ && xml_chardata(
                xml_children(g)[2],
            ) == "Tree "@ + self.name@ && (self.crown_diameter matches Some(d) ==> xml_tag(
                xml_children(g)[3],
            ) == "circle"@ && has_attr(
                xml_children(g)[3],
                "r"@,
                rat_str(frac_mul(d@, frac_recip(frac_from_int(2)))),
            ) && xml_tag(xml_children(g)[4]) == "circle"@ && has_attr(
                xml_children(g)[4],
                "r"@,
                rat_str(frac_mul(self.trunk_diameter@, frac_recip(frac_from_int(2)))),
            )) && (self.crown_diameter is None ==> xml_tag(xml_children(g)[3]) == "circle"@
                && has_attr(
                xml_children(g)[3],
                "r"@,
                rat_str(frac_mul(self.trunk_diameter@, frac_recip(frac_from_int(2)))),
            )),
            tree_xml_fits(self) ==> r is Ok,
            r is Err ==> r == Err::<XMLElement, NumericError>(NumericError::Overflow),
    {
        let two = Rat::from_int(2);
        let mut id = "tree-".to_owned();
        id.append(self.name.as_str());
        let mut title = "Tree ".to_owned();
        title.append(self.name.as_str());
        let description = title.clone();
        let mut g = xml_new("g");
        g = xml_attr(g, "stroke-width", "0.2".to_owned());
        g = xml_attr(g, "id", id);
        proof {
            assert(xml_attrs(g)[0] == ("stroke-width"@, "0.2"@));
            assert(xml_attrs(g)[1] == ("id"@, "tree-"@ + self.name@));
        }
        let label = Label::new(self.label_location, self.name.as_str()).size(Rat::one()).to_xml();
        let ghost labelg = label;
        g = xml_element(g, label);
        let t = Title(title).to_xml();
        let ghost tg = t;
        g = xml_element(g, t);
        let dsc = Description(description).to_xml();
        let ghost dscg = dsc;
        g = xml_element(g, dsc);
        proof {
            assert(xml_children(g)[0] == labelg);
            assert(xml_children(g)[1] == tg);
            assert(xml_children(g)[2] == dscg);
        }
        match self.crown_diameter {
            Some(d) => {
                let radius = match d.div(two) {
                    Ok(v) => v,
                    Err(_) => {
                        return Err(NumericError::Overflow);
                    },
                };
                let crown = Circle::new(
                    self.location.x,
                    self.location.y,
                    radius,
                    Color::Green,
                    Color::DarkGreen,
                ).to_xml();
                let ghost crowng = crown;
                g = xml_element(g, crown);
                proof {
                    assert(xml_children(g)[0] == labelg);
                    assert(xml_children(g)[1] == tg);
                    assert(xml_children(g)[2] == dscg);
                    assert(xml_children(g)[3] == crowng);
                }
            },
            _ => {},
        }
        let trunk_radius = match self.trunk_diameter.div(two) {
            Ok(v) => v,
            Err(_) => {
                return Err(NumericError::Overflow);
            },
        };
        let trunk = Circle::new(
            self.location.x,
            self.location.y,
            trunk_radius,
            Color::Brown,
            Color::Maroon,
        ).to_xml();
        let ghost trunkg = trunk;
        g = xml_element(g, trunk);
        proof {
            assert(xml_children(g).last() == trunkg);
        }
        Ok(g)
    }
}

} // verus!
