//! Renderable primitives and the world frame that groups them.
//!
//! Every primitive is a plain value over exact scalars; turning one into
//! a markup element builds its attribute strings with the verified
//! formatting functions and hands them to the serializer through the
//! trusted boundary. A `World` pairs one placement coordinate with an
//! owned list of child elements and emits a single group whose transform
//! attribute carries the coordinate's composed matrix and translation,
//! so the whole subtree is placed in one step.

use vstd::prelude::*;

use vstd::pervasive::unreached;

use simple_xml_serialize::XMLElement;

use crate::color::{color_str, Color};
use crate::coordinate::{axis_scale_frac, Coordinate, Coordinates};
use crate::error::{Error, NumericError};
use crate::fmt::{
    path_data, path_data_str, path_prefix, polyline_data, rat_str, rat_to_string, transform_attr,
    transform_str,
};
use crate::rat::{
    frac_add, frac_fits, frac_from_int, frac_mul, frac_neg, frac_recip, frac_sub, Frac, Rat,
};
use crate::coordinate::{lin_mat, lin_mat_fits, max_x_of, max_y_of, min_x_of, min_y_of};
use crate::text::Title;
use crate::xml::{
    has_attr, lemma_has_attr_last, lemma_has_attr_push, xml_attr, xml_attrs, xml_chardata,
    xml_children, xml_element, xml_elements, xml_new, xml_tag,
};

verus! {

/// A rendered line element: the `line` tag with the exact endpoint and
/// stroke attributes.
pub open spec fn is_line_elem(
    e: XMLElement,
    x1: Frac,
    y1: Frac,
    x2: Frac,
    y2: Frac,
    c: Color,
) -> bool {
    &&& xml_tag(e) == "line"@
    &&& has_attr(e, "x1"@, rat_str(x1))
    &&& has_attr(e, "y1"@, rat_str(y1))
    &&& has_attr(e, "x2"@, rat_str(x2))
    &&& has_attr(e, "y2"@, rat_str(y2))
    &&& has_attr(e, "stroke"@, color_str(c))
}

/// The arrowhead offset of an axis indicator: a tenth of its length.
pub open spec fn axis_arrow(scale: Frac) -> Frac {
    frac_mul(scale, frac_recip(frac_from_int(10)))
}

/// The tip of the rendered x axis: the location moved by the length
/// along x.
pub open spec fn axis_x_tip(a: Axis) -> (Frac, Frac) {
    (frac_add(a.location.x@, a.scale@), frac_add(a.location.y@, frac_from_int(0)))
}

/// The tip of the rendered y axis.
pub open spec fn axis_y_tip(a: Axis) -> (Frac, Frac) {
    (frac_add(a.location.x@, frac_from_int(0)), frac_add(a.location.y@, a.scale@))
}

/// The upper corner of the x arrowhead.
pub open spec fn axis_x_arrow1(a: Axis) -> (Frac, Frac) {
    (
        frac_add(axis_x_tip(a).0, frac_neg(axis_arrow(a.scale@))),
        frac_add(axis_x_tip(a).1, axis_arrow(a.scale@)),
    )
}

/// The lower corner of the x arrowhead.
pub open spec fn axis_x_arrow2(a: Axis) -> (Frac, Frac) {
    (
        frac_add(axis_x_tip(a).0, frac_neg(axis_arrow(a.scale@))),
        frac_add(axis_x_tip(a).1, frac_neg(axis_arrow(a.scale@))),
    )
}

/// The left corner of the y arrowhead.
pub open spec fn axis_y_arrow1(a: Axis) -> (Frac, Frac) {
    (
        frac_add(axis_y_tip(a).0, frac_neg(axis_arrow(a.scale@))),
        frac_add(axis_y_tip(a).1, frac_neg(axis_arrow(a.scale@))),
    )
}

/// The right corner of the y arrowhead.
pub open spec fn axis_y_arrow2(a: Axis) -> (Frac, Frac) {
    (
        frac_add(axis_y_tip(a).0, axis_arrow(a.scale@)),
        frac_add(axis_y_tip(a).1, frac_neg(axis_arrow(a.scale@))),
    )
}

/// Every exact sum the axis indicator's geometry takes fits the
/// representation: the arrow size `scale / 10`, the two axis tips, and
/// the four arrowhead corners.
pub open spec fn axis_xml_fits(loc_x: Frac, loc_y: Frac, scale: Frac) -> bool {
    let arrow = frac_mul(scale, frac_recip(frac_from_int(10)));
    &&& frac_fits(arrow)
    &&& frac_fits(frac_add(loc_x, scale))
    &&& frac_fits(frac_add(loc_y, frac_from_int(0)))
    &&& frac_fits(frac_add(loc_x, frac_from_int(0)))
    &&& frac_fits(frac_add(loc_y, scale))
    &&& frac_fits(frac_add(frac_add(loc_x, scale), frac_neg(arrow)))
    &&& frac_fits(frac_add(frac_add(loc_y, frac_from_int(0)), arrow))
    &&& frac_fits(frac_add(frac_add(loc_y, frac_from_int(0)), frac_neg(arrow)))
    &&& frac_fits(frac_add(frac_add(loc_x, frac_from_int(0)), frac_neg(arrow)))
    &&& frac_fits(frac_add(frac_add(loc_x, frac_from_int(0)), arrow))
    &&& frac_fits(frac_add(frac_add(loc_y, scale), frac_neg(arrow)))
}

/// Rendering the frame group stays within the representation: its
/// placement's linear map and its origin-anchored axis indicator.
pub open spec fn world_xml_fits(w: World) -> bool {
    lin_mat_fits(w.location) && axis_xml_fits(
        frac_from_int(0),
        frac_from_int(0),
        w.axis_scale@,
    )
}

/// Rendering the area group stays within the representation (only its
/// optional nested frame can overflow).
pub open spec fn area_xml_fits(a: Area) -> bool {
    match a.world {
        Some(w) => world_xml_fits(w),
        None => true,
    }
}

/// An open polyline with a name, a stroke color, and optional stroke
/// width and dash pattern.
#[derive(Debug)]
pub struct Path {
    pub points: Vec<Coordinate>,
    pub color: Color,
    pub stroke_width: Option<Rat>,
    pub stroke_dash: Option<String>,
    pub name: String,
}

impl Path {
    pub open spec fn wf(self) -> bool {
        &&& self.points@.len() >= 1
        &&& forall|i: int| 0 <= i < self.points@.len() ==> (#[trigger] self.points@[i]).wf()
        &&& (self.stroke_width matches Some(w) ==> w.wf())
    }

    /// A named black polyline through the given points; rejects an empty
    /// point list (its rendering starts at the first point).
    pub fn new(name: &str, points: Vec<Coordinate>) -> (r: Result<Path, Error>)
        requires
            forall|i: int| 0 <= i < points@.len() ==> (#[trigger] points@[i]).wf(),
        ensures
            points@.len() == 0 ==> r == Err::<Path, Error>(
                Error::Precondition(crate::error::PreconditionError::TooFewPoints),
            ),
            points@.len() >= 1 ==> (r matches Ok(p) && p.wf() && p.points == points && p.color
                == Color::Black && p.stroke_width is None && p.stroke_dash is None && p.name@
                == name@),
    {
        if points.len() == 0 {
            return Err(Error::Precondition(crate::error::PreconditionError::TooFewPoints));
        }
        Ok(
            Path {
                points,
                color: Color::Black,
                stroke_width: None,
                stroke_dash: None,
                name: name.to_owned(),
            },
        )
    }

    /// The path with the stroke color replaced.
    pub fn color(self, color: Color) -> (r: Path)
        ensures
            r == (Path { color, ..self }),
    {
        Path { color, ..self }
    }

    /// The path with the stroke width set.
    pub fn stroke_width(self, stroke_width: Rat) -> (r: Path)
        requires
            stroke_width.wf(),
        ensures
            r == (Path { stroke_width: Some(stroke_width), ..self }),
    {
        Path { stroke_width: Some(stroke_width), ..self }
    }

    /// The path with the dash pattern set.
    pub fn stroke_dash(self, stroke_dash: &str) -> (r: Path)
        ensures
            r.points == self.points,
            r.color == self.color,
            r.stroke_width == self.stroke_width,
            r.stroke_dash matches Some(d) && d@ == stroke_dash@,
            r.name == self.name,
    {
        Path { stroke_dash: Some(stroke_dash.to_owned()), ..self }
    }

    /// The path as a markup element: its `d` attribute carries the open
    /// polyline through the exact points.
    pub fn to_xml(self) -> (r: XMLElement)
        requires
            self.wf(),
        ensures
            xml_tag(r) == "path"@,
            has_attr(r, "id"@, "area-"@ + self.name@),
            has_attr(r, "d"@, path_prefix(self.points@, self.points@.len() as int)),
            has_attr(r, "stroke"@, color_str(self.color)),
            has_attr(r, "fill"@, "none"@),
            self.stroke_width matches Some(w) ==> has_attr(r, "stroke-width"@, rat_str(w@)),
            self.stroke_dash matches Some(sd) ==> has_attr(r, "stroke-dasharray"@, sd@),
            xml_children(r).len() == 1,
            xml_tag(xml_children(r)[0]) == "title"@,
            xml_chardata(xml_children(r)[0]) == self.name@,
    {
        let data = match polyline_data(&self.points) {
            Ok(d) => d,
            Err(_) => unreached(),
        };
        let mut id = "area-".to_owned();
        id.append(self.name.as_str());
        let mut e = xml_new("path");
        e = xml_attr(e, "id", id);
        e = xml_attr(e, "d", data);
        e = xml_attr(e, "stroke", self.color.name().to_owned());
        e = xml_attr(e, "fill", "none".to_owned());
        proof {
            assert(xml_attrs(e)[0] == ("id"@, "area-"@ + self.name@));
            assert(xml_attrs(e)[1] == ("d"@, path_prefix(self.points@, self.points@.len() as int)));
            assert(xml_attrs(e)[2] == ("stroke"@, color_str(self.color)));
            assert(xml_attrs(e)[3] == ("fill"@, "none"@));
        }
        match &self.stroke_width {
            Some(w) => {
                let ghost prev = e;
                e = xml_attr(e, "stroke-width", rat_to_string(w));
                proof {
                    let ghost q = ("stroke-width"@, rat_str(w@));
                    lemma_has_attr_push(prev, e, "id"@, "area-"@ + self.name@, q);
                    lemma_has_attr_push(
                        prev,
                        e,
                        "d"@,
                        path_prefix(self.points@, self.points@.len() as int),
                        q,
                    );
                    lemma_has_attr_push(prev, e, "stroke"@, color_str(self.color), q);
                    lemma_has_attr_push(prev, e, "fill"@, "none"@, q);
                    lemma_has_attr_last(prev, e, "stroke-width"@, rat_str(w@));
                }
            },
            _ => {},
        }
        match self.stroke_dash {
            Some(d) => {
                let ghost prev = e;
                let ghost dview = d@;
                e = xml_attr(e, "stroke-dasharray", d);
                proof {
                    let ghost q = ("stroke-dasharray"@, dview);
                    lemma_has_attr_push(prev, e, "id"@, "area-"@ + self.name@, q);
                    lemma_has_attr_push(
                        prev,
                        e,
                        "d"@,
                        path_prefix(self.points@, self.points@.len() as int),
                        q,
                    );
                    lemma_has_attr_push(prev, e, "stroke"@, color_str(self.color), q);
                    lemma_has_attr_push(prev, e, "fill"@, "none"@, q);
                    if self.stroke_width is Some {
                        lemma_has_attr_push(
                            prev,
                            e,
                            "stroke-width"@,
                            rat_str(self.stroke_width->0@),
                            q,
                        );
                    }
                    lemma_has_attr_last(prev, e, "stroke-dasharray"@, dview);
                }
            },
            _ => {},
        }
        let t = Title(self.name).to_xml();
        let ghost tg = t;
        let out = xml_element(e, t);
        proof {
            assert(xml_children(out)[0] == tg);
        }
        out
    }
}

/// A closed polygon with stroke and fill colors, an optional nested
/// world frame, and an optional stroke width.
#[derive(Debug)]
pub struct Area {
    pub corners: Vec<Coordinate>,
    pub color: Color,
    pub fill: Color,
    pub world: Option<World>,
    pub stroke_width: Option<Rat>,
    pub name: String,
}

impl Area {
    pub open spec fn wf(self) -> bool {
        &&& self.corners@.len() >= 3
        &&& forall|i: int| 0 <= i < self.corners@.len() ==> (#[trigger] self.corners@[i]).wf()
        &&& (self.stroke_width matches Some(w) ==> w.wf())
        &&& (self.world matches Some(w) ==> w.wf())
    }

    /// A named area over the given corners; an area needs at least three
    /// corners and is rejected below that.
    pub fn new(name: &str, corners: Vec<Coordinate>) -> (r: Result<Area, Error>)
        requires
            forall|i: int| 0 <= i < corners@.len() ==> (#[trigger] corners@[i]).wf(),
        ensures
            corners@.len() < 3 ==> r == Err::<Area, Error>(
                Error::Precondition(crate::error::PreconditionError::TooFewPoints),
            ),
            corners@.len() >= 3 ==> (r matches Ok(a) && a.wf() && a.corners == corners && a.color
                == Color::Black && a.fill == Color::Transparent && a.world is None
                && a.stroke_width is None && a.name@ == name@),
    {
        if corners.len() < 3 {
            return Err(Error::Precondition(crate::error::PreconditionError::TooFewPoints));
        }
        Ok(
            Area {
                corners,
                color: Color::Black,
                fill: Color::Transparent,
                world: None,
                stroke_width: None,
                name: name.to_owned(),
            },
        )
    }

    /// The area with the stroke color replaced.
    pub fn color(self, color: Color) -> (r: Area)
        ensures
            r == (Area { color, ..self }),
    {
        Area { color, ..self }
    }

    /// The area with the fill color replaced.
    pub fn fill(self, fill: Color) -> (r: Area)
        ensures
            r == (Area { fill, ..self }),
    {
        Area { fill, ..self }
    }

    /// The area with the stroke width set.
    pub fn stroke_width(self, stroke_width: Rat) -> (r: Area)
        requires
            stroke_width.wf(),
        ensures
            r == (Area { stroke_width: Some(stroke_width), ..self }),
    {
        Area { stroke_width: Some(stroke_width), ..self }
    }

    /// Attaches a nested world frame at `origin`, with its axis
    /// indicator sized by the area's own extent.
    pub fn world(self, origin: Coordinate, stroke_width: Option<Rat>) -> (r: Result<Area, Error>)
        requires
            self.wf(),
            origin.wf(),
            stroke_width matches Some(w) ==> w.wf(),
        ensures
            r matches Ok(a) ==> a.wf() && a.corners == self.corners && a.color == self.color
                && a.fill == self.fill && a.stroke_width == self.stroke_width && a.name
                == self.name && (a.world matches Some(w) && w.location == origin && w.axis_scale@
                == axis_scale_frac(self.corners@) && w.stroke_width == stroke_width
                && w.elements@.len() == 0),
            frac_fits(frac_sub(max_x_of(self.corners@), min_x_of(self.corners@))) && frac_fits(
                frac_sub(max_y_of(self.corners@), min_y_of(self.corners@)),
            ) && frac_fits(axis_scale_frac(self.corners@)) ==> r is Ok,
            r is Err ==> r == Err::<Area, Error>(Error::Numeric(NumericError::Overflow)),
    {
        let scale = match Coordinates::axis_scale(&self.corners) {
            Ok(s) => s,
            Err(Error::Numeric(_)) => {
                return Err(Error::Numeric(NumericError::Overflow));
            },
            Err(Error::Precondition(_)) => unreached(),
        };
        let mut wname = "world-".to_owned();
        wname.append(self.name.as_str());
        let world = World::new(wname.as_str(), origin).axis_scale(scale).stroke_width_opt(
            stroke_width,
        );
        Ok(Area { world: Some(world), ..self })
    }

    /// Appends one element to the nested world frame, if there is one.
    pub fn add(&mut self, x: XMLElement)
        requires
            old(self).wf(),
        ensures
            final(self).wf(),
            old(self).world matches Some(w) ==> (final(self).world matches Some(w2) && w2.elements@
                == w.elements@.push(x) && w2.location == w.location && w2.axis_scale
                == w.axis_scale && w2.name == w.name && w2.stroke_width == w.stroke_width),
            old(self).world is None ==> *final(self) == *old(self),
            final(self).corners == old(self).corners && final(self).color == old(self).color
                && final(self).fill == old(self).fill && final(self).stroke_width == old(
                self,
            ).stroke_width && final(self).name == old(self).name,
    {
        match &mut self.world {
            Some(w) => {
                w.add(x);
            },
            _ => {},
        }
    }

    /// Appends a batch of elements to the nested world frame, if there
    /// is one.
    pub fn add_all(&mut self, xn: Vec<XMLElement>)
        requires
            old(self).wf(),
        ensures
            final(self).wf(),
            old(self).world matches Some(w) ==> (final(self).world matches Some(w2) && w2.elements@
                == w.elements@ + xn@ && w2.location == w.location && w2.axis_scale == w.axis_scale
                && w2.name == w.name && w2.stroke_width == w.stroke_width),
            old(self).world is None ==> *final(self) == *old(self),
            final(self).corners == old(self).corners && final(self).color == old(self).color
                && final(self).fill == old(self).fill && final(self).stroke_width == old(
                self,
            ).stroke_width && final(self).name == old(self).name,
    {
        match &mut self.world {
            Some(w) => {
                w.add_all(xn);
            },
            _ => {},
        }
    }

    /// The area's own path element: its `d` attribute carries the
    /// closed polygon through the exact corners, with the fill and
    /// stroke colors.
    pub fn path_xml(&self) -> (r: XMLElement)
        requires
            self.wf(),
        ensures
            xml_tag(r) == "path"@,
            has_attr(r, "id"@, "area-"@ + self.name@),
            has_attr(r, "d"@, path_data_str(self.corners@)),
            has_attr(r, "fill"@, color_str(self.fill)),
            has_attr(r, "stroke"@, color_str(self.color)),
            self.stroke_width matches Some(w) ==> has_attr(r, "stroke-width"@, rat_str(w@)),
            xml_children(r).len() == 1,
            xml_tag(xml_children(r)[0]) == "title"@,
            xml_chardata(xml_children(r)[0]) == self.name@,
    {
        let data = match path_data(&self.corners) {
            Ok(d) => d,
            Err(_) => unreached(),
        };
        let mut id = "area-".to_owned();
        id.append(self.name.as_str());
        let mut p = xml_new("path");
        p = xml_attr(p, "id", id);
        p = xml_attr(p, "d", data);
        p = xml_attr(p, "fill", self.fill.name().to_owned());
        p = xml_attr(p, "stroke", self.color.name().to_owned());
        proof {
            assert(xml_attrs(p)[0] == ("id"@, "area-"@ + self.name@));
            assert(xml_attrs(p)[1] == ("d"@, path_data_str(self.corners@)));
            assert(xml_attrs(p)[2] == ("fill"@, color_str(self.fill)));
            assert(xml_attrs(p)[3] == ("stroke"@, color_str(self.color)));
        }
        match &self.stroke_width {
            Some(w) => {
                let ghost prev = p;
                p = xml_attr(p, "stroke-width", rat_to_string(w));
                proof {
                    let ghost q = ("stroke-width"@, rat_str(w@));
                    lemma_has_attr_push(prev, p, "id"@, "area-"@ + self.name@, q);
                    lemma_has_attr_push(prev, p, "d"@, path_data_str(self.corners@), q);
                    lemma_has_attr_push(prev, p, "fill"@, color_str(self.fill), q);
                    lemma_has_attr_push(prev, p, "stroke"@, color_str(self.color), q);
                    lemma_has_attr_last(prev, p, "stroke-width"@, rat_str(w@));
                }
            },
            _ => {},
        }
        let t = Title(self.name.clone()).to_xml();
        let ghost tg = t;
        let out = xml_element(p, t);
        proof {
            assert(xml_children(out)[0] == tg);
        }
        out
    }

    /// The area as a markup group: its first child is the closed path
    /// element, and the nested world frame follows it when one is
    /// attached.
    pub fn to_xml(self) -> (r: Result<XMLElement, NumericError>)
        requires
            self.wf(),
        ensures
            r matches Ok(g) ==> xml_tag(g) == "g"@ && xml_children(g).len() == (
            if self.world is Some {
                2int
            } else {
                1int
            }) && xml_tag(xml_children(g)[0]) == "path"@ && has_attr(
                xml_children(g)[0],
                "d"@,
                path_data_str(self.corners@),
            ) && has_attr(xml_children(g)[0], "id"@, "area-"@ + self.name@) && has_attr(
                xml_children(g)[0],
                "fill"@,
                color_str(self.fill),
            ) && has_attr(xml_children(g)[0], "stroke"@, color_str(self.color)) && (
            self.stroke_width matches Some(w) ==> has_attr(
                xml_children(g)[0],
                "stroke-width"@,
                rat_str(w@),
            )) && xml_children(xml_children(g)[0]).len() == 1 && xml_tag(
                xml_children(xml_children(g)[0])[0],
            ) == "title"@ && xml_chardata(xml_children(xml_children(g)[0])[0]) == self.name@ && (
            self.world matches Some(w) ==> xml_tag(xml_children(g)[1]) == "g"@ && has_attr(
                xml_children(g)[1],
                "id"@,
                "world-"@ + w.name@,
            ) && has_attr(
                xml_children(g)[1],
                "transform"@,
                transform_str(w.location, lin_mat(w.location)),
            )),
            area_xml_fits(self) ==> r is Ok,
            r is Err ==> r == Err::<XMLElement, NumericError>(NumericError::Overflow),
    {
        let p = self.path_xml();
        let ghost pg = p;
        let mut g = xml_new("g");
        g = xml_element(g, p);
        proof {
            assert(xml_children(g)[0] == pg);
        }
        match self.world {
            Some(w) => {
                let wx = w.to_xml()?;
                let ghost wg = wx;
                g = xml_element(g, wx);
                proof {
                    assert(xml_children(g)[0] == pg);
                    assert(xml_children(g)[1] == wg);
                }
            },
            _ => {},
        }
        Ok(g)
    }
}

/// A circle with stroke and fill colors.
#[derive(Debug)]
pub struct Circle {
    pub cx: Rat,
    pub cy: Rat,
    pub r: Rat,
    pub color: Color,
    pub fill: Color,
}

impl Circle {
    pub open spec fn wf(self) -> bool {
        self.cx.wf() && self.cy.wf() && self.r.wf()
    }

    pub fn new(cx: Rat, cy: Rat, r: Rat, color: Color, fill: Color) -> (c: Circle)
        requires
            cx.wf(),
            cy.wf(),
            r.wf(),
        ensures
            c.wf(),
            c == (Circle { cx, cy, r, color, fill }),
    {
        Circle { cx, cy, r, color, fill }
    }

    /// The circle as a markup element, with its exact radius and
    /// center.
    pub fn to_xml(self) -> (r: XMLElement)
        requires
            self.wf(),
        ensures
            xml_tag(r) == "circle"@,
            has_attr(r, "r"@, rat_str(self.r@)),
            has_attr(r, "cx"@, rat_str(self.cx@)),
            has_attr(r, "cy"@, rat_str(self.cy@)),
            has_attr(r, "fill"@, color_str(self.fill)),
            has_attr(r, "stroke"@, color_str(self.color)),
            has_attr(r, "stroke-width"@, "0.25"@),
    {
        let mut e = xml_new("circle");
        e = xml_attr(e, "r", rat_to_string(&self.r));
        e = xml_attr(e, "cx", rat_to_string(&self.cx));
        e = xml_attr(e, "cy", rat_to_string(&self.cy));
        e = xml_attr(e, "fill", self.fill.name().to_owned());
        e = xml_attr(e, "stroke", self.color.name().to_owned());
        let out = xml_attr(e, "stroke-width", "0.25".to_owned());
        proof {
            assert(xml_attrs(out)[0] == ("r"@, rat_str(self.r@)));
            assert(xml_attrs(out)[1] == ("cx"@, rat_str(self.cx@)));
            assert(xml_attrs(out)[2] == ("cy"@, rat_str(self.cy@)));
            assert(xml_attrs(out)[3] == ("fill"@, color_str(self.fill)));
            assert(xml_attrs(out)[4] == ("stroke"@, color_str(self.color)));
            assert(xml_attrs(out)[5] == ("stroke-width"@, "0.25"@));
        }
        out
    }
}

/// A straight stroke between two positions.
#[derive(Debug)]
pub struct Line {
    pub p1: Coordinate,
    pub p2: Coordinate,
    pub color: Color,
    pub stroke_width: Option<Rat>,
}

impl Line {
    pub open spec fn wf(self) -> bool {
        self.p1.wf() && self.p2.wf() && (self.stroke_width matches Some(w) ==> w.wf())
    }

    pub fn new(p1: Coordinate, p2: Coordinate, color: Color) -> (r: Line)
        requires
            p1.wf(),
            p2.wf(),
        ensures
            r.wf(),
            r.p1 == p1,
            r.p2 == p2,
            r.color == color,
            r.stroke_width is None,
    {
        Line { p1, p2, color, stroke_width: None }
    }

    /// The line with the stroke width set.
    pub fn stroke_width(self, stroke_width: Rat) -> (r: Line)
        requires
            stroke_width.wf(),
        ensures
            r == (Line { stroke_width: Some(stroke_width), ..self }),
    {
        Line { stroke_width: Some(stroke_width), ..self }
    }

    /// The line as a markup element, with the exact endpoints.
    pub fn to_xml(self) -> (r: XMLElement)
        requires
            self.wf(),
        ensures
            xml_tag(r) == "line"@,
            has_attr(r, "x1"@, rat_str(self.p1.x@)),
            has_attr(r, "y1"@, rat_str(self.p1.y@)),
            has_attr(r, "x2"@, rat_str(self.p2.x@)),
            has_attr(r, "y2"@, rat_str(self.p2.y@)),
            has_attr(r, "stroke"@, color_str(self.color)),
            is_line_elem(r, self.p1.x@, self.p1.y@, self.p2.x@, self.p2.y@, self.color),
    {
        let mut e = xml_new("line");
        e = xml_attr(e, "x1", rat_to_string(&self.p1.x));
        e = xml_attr(e, "y1", rat_to_string(&self.p1.y));
        e = xml_attr(e, "x2", rat_to_string(&self.p2.x));
        e = xml_attr(e, "y2", rat_to_string(&self.p2.y));
        let out = xml_attr(e, "stroke", self.color.name().to_owned());
        proof {
            assert(xml_attrs(out)[0] == ("x1"@, rat_str(self.p1.x@)));
            assert(xml_attrs(out)[1] == ("y1"@, rat_str(self.p1.y@)));
            assert(xml_attrs(out)[2] == ("x2"@, rat_str(self.p2.x@)));
            assert(xml_attrs(out)[3] == ("y2"@, rat_str(self.p2.y@)));
            assert(xml_attrs(out)[4] == ("stroke"@, color_str(self.color)));
        }
        out
    }
}

/// A frame's origin marker: two axis arrows of the given length.
#[derive(Debug)]
pub struct Axis {
    pub location: Coordinate,
    pub scale: Rat,
}

impl Axis {
    pub open spec fn wf(self) -> bool {
        self.location.wf() && self.scale.wf()
    }

    /// An axis indicator of the given length, at the origin.
    pub fn new(scale: Rat) -> (r: Axis)
        requires
            scale.wf(),
        ensures
            r.wf(),
            r.scale == scale,
            r.location.x@ == frac_from_int(0),
            r.location.y@ == frac_from_int(0),
    {
        Axis { location: Coordinate::new(Rat::zero(), Rat::zero()), scale }
    }

    /// The axis indicator as a markup group of exactly seven grey
    /// strokes: the two axes, the two corners of each arrowhead, and
    /// the stroke joining the x arrowhead's corners.
    pub fn to_xml(self) -> (r: Result<XMLElement, NumericError>)
        requires
            self.wf(),
        ensures
            r matches Ok(g) ==> xml_tag(g) == "g"@ && xml_children(g).len() == 7 && is_line_elem(
                xml_children(g)[0],
                self.location.x@,
                self.location.y@,
                axis_x_tip(self).0,
                axis_x_tip(self).1,
                Color::Grey,
            ) && is_line_elem(
                xml_children(g)[1],
                self.location.x@,
                self.location.y@,
                axis_y_tip(self).0,
                axis_y_tip(self).1,
                Color::Grey,
            ) && is_line_elem(
                xml_children(g)[2],
                axis_x_tip(self).0,
                axis_x_tip(self).1,
                axis_x_arrow1(self).0,
                axis_x_arrow1(self).1,
                Color::Grey,
            ) && is_line_elem(
                xml_children(g)[3],
                axis_x_tip(self).0,
                axis_x_tip(self).1,
                axis_x_arrow2(self).0,
                axis_x_arrow2(self).1,
                Color::Grey,
            ) && is_line_elem(
                xml_children(g)[4],
                axis_y_tip(self).0,
                axis_y_tip(self).1,
                axis_y_arrow1(self).0,
                axis_y_arrow1(self).1,
                Color::Grey,
            ) && is_line_elem(
                xml_children(g)[5],
                axis_y_tip(self).0,
                axis_y_tip(self).1,
                axis_y_arrow2(self).0,
                axis_y_arrow2(self).1,
                Color::Grey,
            ) && is_line_elem(
                xml_children(g)[6],
                axis_x_arrow1(self).0,
                axis_x_arrow1(self).1,
                axis_x_arrow2(self).0,
                axis_x_arrow2(self).1,
                Color::Grey,
            ),
            axis_xml_fits(self.location.x@, self.location.y@, self.scale@) ==> r is Ok,
            r is Err ==> r == Err::<XMLElement, NumericError>(NumericError::Overflow),
    {
        let arrow = match self.scale.div(Rat::from_int(10)) {
            Ok(a) => a,
            Err(_) => {
                return Err(NumericError::Overflow);
            },
        };
        let zero = Rat::zero();
        let x_dir = self.location.translate(self.scale, zero)?;
        let y_dir = self.location.translate(zero, self.scale)?;
        let neg = arrow.neg();
        let x_a1 = x_dir.translate(neg, arrow)?;
        let x_a2 = x_dir.translate(neg, neg)?;
        let y_a1 = y_dir.translate(neg, neg)?;
        let y_a2 = y_dir.translate(arrow, neg)?;
        let color = Color::Grey;
        let l0 = Line::new(self.location, x_dir, color).to_xml();
        let l1 = Line::new(self.location, y_dir, color).to_xml();
        let l2 = Line::new(x_dir, x_a1, color).to_xml();
        let l3 = Line::new(x_dir, x_a2, color).to_xml();
        let l4 = Line::new(y_dir, y_a1, color).to_xml();
        let l5 = Line::new(y_dir, y_a2, color).to_xml();
        let l6 = Line::new(x_a1, x_a2, color).to_xml();
        let ghost lg = (l0, l1, l2, l3, l4, l5, l6);
        let mut g = xml_new("g");
        g = xml_element(g, l0);
        g = xml_element(g, l1);
        g = xml_element(g, l2);
        g = xml_element(g, l3);
        g = xml_element(g, l4);
        g = xml_element(g, l5);
        let out = xml_element(g, l6);
        proof {
            assert(xml_children(out)[0] == lg.0);
            assert(xml_children(out)[1] == lg.1);
            assert(xml_children(out)[2] == lg.2);
            assert(xml_children(out)[3] == lg.3);
            assert(xml_children(out)[4] == lg.4);
            assert(xml_children(out)[5] == lg.5);
            assert(xml_children(out)[6] == lg.6);
        }
        Ok(out)
    }
}

/// A nested coordinate frame: one placement coordinate and the elements
/// expressed in its local space. It owns its children until it is turned
/// into a single markup group whose transform attribute places the whole
/// subtree at once.
#[derive(Debug)]
pub struct World {
    pub location: Coordinate,
    pub elements: Vec<XMLElement>,
    pub axis_scale: Rat,
    pub name: String,
    pub stroke_width: Option<Rat>,
}

impl World {
    pub open spec fn wf(self) -> bool {
        self.location.wf() && self.axis_scale.wf() && (self.stroke_width matches Some(w)
            ==> w.wf())
    }

    /// A named, empty frame placed at `location`, with the default axis
    /// indicator length of ten units.
    pub fn new(name: &str, location: Coordinate) -> (r: World)
        requires
            location.wf(),
        ensures
            r.wf(),
            r.location == location,
            r.elements@.len() == 0,
            r.axis_scale@ == frac_from_int(10),
            r.name@ == name@,
            r.stroke_width is None,
    {
        World {
            location,
            elements: Vec::new(),
            axis_scale: Rat::from_int(10),
            name: name.to_owned(),
            stroke_width: None,
        }
    }

    /// Appends one element to the frame's children.
    pub fn add(&mut self, x: XMLElement)
        requires
            old(self).wf(),
        ensures
            final(self).wf(),
            final(self).elements@ == old(self).elements@.push(x),
            final(self).location == old(self).location,
            final(self).axis_scale == old(self).axis_scale,
            final(self).name == old(self).name,
            final(self).stroke_width == old(self).stroke_width,
    {
        self.elements.push(x);
    }

    /// Appends a batch of elements to the frame's children, in order.
    pub fn add_all(&mut self, xn: Vec<XMLElement>)
        requires
            old(self).wf(),
        ensures
            final(self).wf(),
            final(self).elements@ == old(self).elements@ + xn@,
            final(self).location == old(self).location,
            final(self).axis_scale == old(self).axis_scale,
            final(self).name == old(self).name,
            final(self).stroke_width == old(self).stroke_width,
    {
        let mut rest = xn;
        self.elements.append(&mut rest);
    }

    /// The frame with the axis indicator length replaced.
    pub fn axis_scale(self, axis_scale: Rat) -> (r: World)
        requires
            axis_scale.wf(),
        ensures
            r == (World { axis_scale, ..self }),
    {
        World { axis_scale, ..self }
    }

    /// The frame with the stroke width option replaced.
    pub fn stroke_width_opt(self, stroke_width: Option<Rat>) -> (r: World)
        requires
            stroke_width matches Some(w) ==> w.wf(),
        ensures
            r == (World { stroke_width, ..self }),
    {
        World { stroke_width, ..self }
    }

    /// The frame as one markup group: its transform attribute carries
    /// the placement translation and the composed linear matrix, and
    /// after the axis indicator and the title, the frame's elements are
    /// nested beneath it verbatim, in order.
    pub fn to_xml(self) -> (r: Result<XMLElement, NumericError>)
        requires
            self.wf(),
        ensures
            r matches Ok(g) ==> xml_tag(g) == "g"@ && has_attr(g, "id"@, "world-"@ + self.name@)
                && has_attr(
                g,
                "transform"@,
                transform_str(self.location, lin_mat(self.location)),
            ) && (self.stroke_width matches Some(w) ==> has_attr(
                g,
                "stroke-width"@,
                rat_str(w@),
            )) && xml_children(g).len() == 2 + self.elements@.len() && xml_tag(
                xml_children(g)[0],
            ) == "g"@ && xml_tag(xml_children(g)[1]) == "title"@ && xml_chardata(
                xml_children(g)[1],
            ) == self.name@ && (forall|i: int|
                0 <= i < self.elements@.len() ==> xml_children(g)[2 + i] == self.elements@[i]),
            world_xml_fits(self) ==> r is Ok,
            r is Err ==> r == Err::<XMLElement, NumericError>(NumericError::Overflow),
    {
        let m = self.location.matrix()?;
        let transform = transform_attr(&self.location, &m);
        let mut id = "world-".to_owned();
        id.append(self.name.as_str());
        let mut g = xml_new("g");
        g = xml_attr(g, "id", id);
        g = xml_attr(g, "transform", transform);
        proof {
            assert(xml_attrs(g)[0] == ("id"@, "world-"@ + self.name@));
            assert(xml_attrs(g)[1] == ("transform"@, transform_str(self.location, lin_mat(self.location))));
        }
        match &self.stroke_width {
            Some(w) => {
                let ghost prev = g;
                g = xml_attr(g, "stroke-width", rat_to_string(w));
                proof {
                    let ghost q = ("stroke-width"@, rat_str(w@));
                    lemma_has_attr_push(prev, g, "id"@, "world-"@ + self.name@, q);
                    lemma_has_attr_push(
                        prev,
                        g,
                        "transform"@,
                        transform_str(self.location, lin_mat(self.location)),
                        q,
                    );
                    lemma_has_attr_last(prev, g, "stroke-width"@, rat_str(w@));
                }
            },
            _ => {},
        }
        let axis = Axis::new(self.axis_scale).to_xml()?;
        let ghost axisg = axis;
        g = xml_element(g, axis);
        let t = Title(self.name).to_xml();
        let ghost tg = t;
        g = xml_element(g, t);
        let ghost elems = self.elements@;
        let out = xml_elements(g, self.elements);
        proof {
            assert(xml_children(out)[0] == axisg);
            assert(xml_children(out)[1] == tg);
            assert forall|i: int| 0 <= i < elems.len() implies xml_children(out)[2 + i]
                == elems[i] by {
                assert(xml_children(out)[2 + i] == elems[i]);
            }
        }
        Ok(out)
    }
}

} // verus!
