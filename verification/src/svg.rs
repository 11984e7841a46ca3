//! The document root: a sized drawing surface with a y-up world frame.
//!
//! The document's own frame flips the y axis and sits at the lower-left
//! corner of the view box, so drawings use the mathematical convention
//! (y grows upward) while the markup uses the renderer's (y grows
//! downward). Pixel dimensions are the exact ceiling of the unit size
//! times the pixels-per-unit factor.

use vstd::prelude::*;

use simple_xml_serialize::XMLElement;

use crate::coordinate::{lin_mat_fits, Coordinate};
use crate::error::NumericError;
use crate::fmt::{quad_attr, quad_str, rat_str, rat_to_string};
use crate::graphic::{axis_xml_fits, World};
use crate::rat::{frac_add, frac_ceil, frac_fits, frac_from_int, frac_mul, Frac, Rat};
use crate::fmt::transform_str;
use crate::coordinate::lin_mat;
use crate::xml::{
    has_attr, xml_add_element_ref, xml_attr, xml_attrs, xml_chardata, xml_children, xml_element,
    xml_new, xml_tag, xml_to_string_pretty,
};

verus! {

/// Rendering the document stays within the representation: the pixel
/// sizes are computable and the origin frame's group is renderable.
pub open spec fn doc_xml_fits(d: Document) -> bool {
    &&& frac_fits(frac_mul(d.width@, frac_from_int(d.pixels_per_unit as int)))
    &&& frac_fits(frac_mul(d.height@, frac_from_int(d.pixels_per_unit as int)))
    &&& lin_mat_fits(d.origin)
    &&& axis_xml_fits(frac_from_int(0), frac_from_int(0), frac_from_int(10))
}

/// The rendered pixel size: the exact ceiling of the unit size times
/// the pixel density.
pub open spec fn pixel_size(unit: Frac, pixels_per_unit: int) -> int {
    frac_ceil(frac_mul(unit, frac_from_int(pixels_per_unit)))
}

/// A document: the view box, the pixel density, the derived y-up origin
/// frame, and the child elements (owned until rendering).
#[derive(Debug)]
pub struct Document {
    pub min_x: Rat,
    pub min_y: Rat,
    pub width: Rat,
    pub height: Rat,
    pub pixels_per_unit: i64,
    pub origin: Coordinate,
    pub children: Vec<XMLElement>,
}

impl Document {
    pub open spec fn wf(self) -> bool {
        &&& self.min_x.wf()
        &&& self.min_y.wf()
        &&& self.width.wf()
        &&& self.height.wf()
        &&& self.pixels_per_unit > i64::MIN
        &&& self.origin.wf()
    }

    /// A document over the view box `(min_x, min_y, width, height)`.
    /// The origin frame sits at `(min_x, min_y + height)` with the y
    /// axis flipped; `Overflow` when that exact corner does not fit.
    pub fn new(min_x: Rat, min_y: Rat, width: Rat, height: Rat, pixels_per_unit: i64) -> (r:
        Result<Document, NumericError>)
        requires
            min_x.wf(),
            min_y.wf(),
            width.wf(),
            height.wf(),
            pixels_per_unit > i64::MIN,
        ensures
            r matches Ok(d) ==> d.wf() && d.min_x == min_x && d.min_y == min_y && d.width == width
                && d.height == height && d.pixels_per_unit == pixels_per_unit && d.origin.x
                == min_x && d.origin.y@ == frac_add(min_y@, height@) && !d.origin.fx
                && d.origin.fy && d.origin.rot.c@ == frac_from_int(1) && d.origin.rot.s@
                == frac_from_int(0) && d.origin.sx@ == frac_from_int(1) && d.origin.sy@
                == frac_from_int(1) && d.children@.len() == 0,
            frac_fits(frac_add(min_y@, height@)) ==> r is Ok,
            r is Err ==> r == Err::<Document, NumericError>(NumericError::Overflow),
    {
        let top = min_y.add(height)?;
        let origin = Coordinate::new(min_x, top).flip_y();
        Ok(
            Document {
                min_x,
                min_y,
                width,
                height,
                pixels_per_unit,
                origin,
                children: Vec::new(),
            },
        )
    }

    /// Appends one element to the document's children.
    pub fn add(&mut self, x: XMLElement)
        requires
            old(self).wf(),
        ensures
            final(self).wf(),
            final(self).children@ == old(self).children@.push(x),
            final(self).min_x == old(self).min_x,
            final(self).min_y == old(self).min_y,
            final(self).width == old(self).width,
            final(self).height == old(self).height,
            final(self).pixels_per_unit == old(self).pixels_per_unit,
            final(self).origin == old(self).origin,
    {
        self.children.push(x);
    }

    /// The document as the markup root: pixel dimensions are the exact
    /// ceiling of the unit size times the pixel density, the view box is
    /// the four exact numbers, and the children sit in one y-up world
    /// group.
    pub fn to_xml(&self) -> (r: Result<XMLElement, NumericError>)
        requires
            self.wf(),
        ensures
            r matches Ok(e) ==> xml_tag(e) == "svg"@ && has_attr(
                e,
                "width"@,
                rat_str(frac_from_int(pixel_size(self.width@, self.pixels_per_unit as int))),
            ) && has_attr(
                e,
                "height"@,
                rat_str(frac_from_int(pixel_size(self.height@, self.pixels_per_unit as int))),
            ) && has_attr(
                e,
                "viewBox"@,
                quad_str(self.min_x@, self.min_y@, self.width@, self.height@),
            ) && has_attr(e, "xmlns"@, "http://www.w3.org/2000/svg"@) && has_attr(
                e,
                "stroke-width"@,
                "0.25"@,
            ) && xml_children(e).len() == 1 && xml_tag(xml_children(e)[0]) == "g"@ && has_attr(
                xml_children(e)[0],
                "id"@,
                "world-"@ + "document"@,
            ) && has_attr(
                xml_children(e)[0],
                "transform"@,
                transform_str(self.origin, lin_mat(self.origin)),
            ) && xml_children(xml_children(e)[0]).len() == 2 + self.children@.len() && (forall|
                i: int,
            |
                0 <= i < self.children@.len() ==> xml_children(xml_children(e)[0])[2 + i]
                    == self.children@[i]),
            doc_xml_fits(*self) ==> r is Ok,
            r is Err ==> r == Err::<XMLElement, NumericError>(NumericError::Overflow),
    {
        let view_box = quad_attr(&self.min_x, &self.min_y, &self.width, &self.height);
        let ppu = Rat::from_int(self.pixels_per_unit);
        let pw = self.width.mul(ppu)?.ceil_i64();
        let ph = self.height.mul(ppu)?.ceil_i64();
        let world = World::new("document", self.origin);
        let mut wx = world.to_xml()?;
        let mut i: usize = 0;
        while i < self.children.len()
            invariant
                0 <= i <= self.children@.len(),
                xml_tag(wx) == "g"@,
                has_attr(wx, "id"@, "world-"@ + "document"@),
                has_attr(wx, "transform"@, transform_str(self.origin, lin_mat(self.origin))),
                xml_children(wx).len() == 2 + i,
                forall|j: int| 0 <= j < i ==> xml_children(wx)[2 + j] == self.children@[j],
            decreases self.children@.len() - i,
        {
            xml_add_element_ref(&mut wx, &self.children[i]);
            i = i + 1;
        }
        let mut e = xml_new("svg");
        e = xml_attr(e, "width", rat_to_string(&Rat::from_int(pw)));
        e = xml_attr(e, "height", rat_to_string(&Rat::from_int(ph)));
        e = xml_attr(e, "viewBox", view_box);
        e = xml_attr(e, "xmlns", "http://www.w3.org/2000/svg".to_owned());
        let e2 = xml_attr(e, "stroke-width", "0.25".to_owned());
        proof {
            assert(xml_attrs(e2)[0] == (
                "width"@,
                rat_str(frac_from_int(pixel_size(self.width@, self.pixels_per_unit as int))),
            ));
            assert(xml_attrs(e2)[1] == (
                "height"@,
                rat_str(frac_from_int(pixel_size(self.height@, self.pixels_per_unit as int))),
            ));
            assert(xml_attrs(e2)[2] == (
                "viewBox"@,
                quad_str(self.min_x@, self.min_y@, self.width@, self.height@),
            ));
            assert(xml_attrs(e2)[3] == ("xmlns"@, "http://www.w3.org/2000/svg"@));
            assert(xml_attrs(e2)[4] == ("stroke-width"@, "0.25"@));
        }
        let ghost wxg = wx;
        let out = xml_element(e2, wx);
        proof {
            assert(xml_children(out)[0] == wxg);
        }
        Ok(out)
    }

    /// The whole document rendered as pretty-printed markup.
    pub fn to_markup(&self) -> (r: Result<String, NumericError>)
        requires
            self.wf(),
        ensures
            doc_xml_fits(*self) ==> r is Ok,
            r is Err ==> r == Err::<String, NumericError>(NumericError::Overflow),
    {
        let e = self.to_xml()?;
        Ok(xml_to_string_pretty(&e, "\n", "  "))
    }
}

} // verus!
