//! Coordinate frames: a position with an orientation state.
//!
//! A `Coordinate` is a snapshot: a position `(x, y)` together with a
//! rotation (an exact cosine/sine pair), two axis-flip flags and two
//! per-axis scales. All transition operations are pure and return a new
//! value with exactly one aspect changed.
//!
//! The composition convention, applied uniformly: a coordinate's own
//! orientation acts on its *children* (it defines the frame the
//! coordinate anchors), never on its own position. `reference_to_world`
//! therefore maps `self`'s position through the *reference* frame's
//! linear map (scale, then flips, then rotation) followed by the
//! reference's translation, and leaves `self`'s orientation fields
//! unchanged.

use vstd::prelude::*;

use crate::dir::{dir_cos, dir_sin, Dir};
use crate::error::{Error, NumericError, PreconditionError};
use crate::matrix3::{
    gm3_affine, gm3_apply_fits, gm3_apply_x, gm3_apply_y, gm3_fits, gm3_flip_x, gm3_flip_y,
    gm3_mul, gm3_rotate, gm3_scale, gm3_translate, gm3_unit, gm3_wf, lemma_apply_assoc,
    lemma_apply_congr, lemma_apply_translate, lemma_m3_unit_mul, lemma_mul_affine, Gm3, Matrix3,
};
use crate::rat::{
    frac_add, frac_eq, frac_fits, frac_from_int, frac_le, frac_mul, frac_recip, frac_sub, Frac,
    Rat,
};
use crate::rat::fits_num;
use crate::vector2::{norm_exists, norm_frac, norm_sq, Vector2};

verus! {

/// A position in a planar frame, with the orientation state (rotation,
/// axis flips, per-axis scales) of the frame it anchors.
#[derive(Clone, Copy, Debug)]
pub struct Coordinate {
    pub x: Rat,
    pub y: Rat,
    /// The frame's rotation, as an exact cosine/sine pair.
    pub rot: Dir,
    /// Flipped x axis.
    pub fx: bool,
    /// Flipped y axis.
    pub fy: bool,
    /// Scale along x.
    pub sx: Rat,
    /// Scale along y.
    pub sy: Rat,
}

/// The coordinate's own linear map, composed in builder order: scale,
/// then the flips, then the rotation (acting on row vectors).
pub open spec fn lin_mat(c: Coordinate) -> Gm3 {
    gm3_mul(
        gm3_mul(
            gm3_mul(gm3_scale(c.sx@, c.sy@), gm3_flip_x(c.fx)),
            gm3_flip_y(c.fy),
        ),
        gm3_rotate(c.rot.c@, c.rot.s@),
    )
}

/// Every stage of building the coordinate's linear map fits the
/// representation.
pub open spec fn lin_mat_fits(c: Coordinate) -> bool {
    let m1 = gm3_scale(c.sx@, c.sy@);
    let m2 = gm3_mul(m1, gm3_flip_x(c.fx));
    let m3 = gm3_mul(m2, gm3_flip_y(c.fy));
    &&& gm3_fits(m1)
    &&& gm3_fits(m2)
    &&& gm3_fits(m3)
    &&& gm3_fits(gm3_rotate(c.rot.c@, c.rot.s@))
    &&& gm3_fits(gm3_mul(m3, gm3_rotate(c.rot.c@, c.rot.s@)))
}

/// The canonical identity frame: position zero, no rotation, no flips,
/// unit scales, all in their canonical representations.
pub open spec fn is_identity_coord(w: Coordinate) -> bool {
    &&& w.x@ == frac_from_int(0)
    &&& w.y@ == frac_from_int(0)
    &&& w.rot.c@ == frac_from_int(1)
    &&& w.rot.s@ == frac_from_int(0)
    &&& !w.fx
    &&& !w.fy
    &&& w.sx@ == frac_from_int(1)
    &&& w.sy@ == frac_from_int(1)
}

/// The flip transitions as pure functions on the snapshot.
pub open spec fn spec_flip_x(c: Coordinate) -> Coordinate {
    Coordinate { fx: !c.fx, ..c }
}

pub open spec fn spec_flip_y(c: Coordinate) -> Coordinate {
    Coordinate { fy: !c.fy, ..c }
}

impl Coordinate {
    pub open spec fn wf(self) -> bool {
        self.x.wf() && self.y.wf() && self.rot.wf() && self.sx.wf() && self.sy.wf()
    }

    /// The coordinate `(x, y)` in the default orientation: no rotation,
    /// no flips, unit scales.
    pub fn new(x: Rat, y: Rat) -> (r: Coordinate)
        requires
            x.wf(),
            y.wf(),
        ensures
            r.wf(),
            r.x == x,
            r.y == y,
            r.rot.c@ == frac_from_int(1),
            r.rot.s@ == frac_from_int(0),
            !r.fx,
            !r.fy,
            r.sx@ == frac_from_int(1),
            r.sy@ == frac_from_int(1),
    {
        Coordinate {
            x,
            y,
            rot: Dir::identity(),
            fx: false,
            fy: false,
            sx: Rat::one(),
            sy: Rat::one(),
        }
    }

    /// The position as a pair.
    pub fn tup(&self) -> (r: (Rat, Rat))
        ensures
            r.0 == self.x,
            r.1 == self.y,
    {
        (self.x, self.y)
    }

    /// Toggles the x-axis flip; everything else is unchanged. Applying
    /// it twice gives the original back: [`lemma_flip_involution`].
    pub fn flip_x(self) -> (r: Coordinate)
        ensures
            r == spec_flip_x(self),
    {
        Coordinate { fx: !self.fx, ..self }
    }

    /// Sets the x-axis flip to `v`; everything else is unchanged.
    pub fn flip_x_if(self, v: bool) -> (r: Coordinate)
        ensures
            r == (Coordinate { fx: v, ..self }),
    {
        Coordinate { fx: v, ..self }
    }

    /// Toggles the y-axis flip; everything else is unchanged. Applying
    /// it twice gives the original back: [`lemma_flip_involution`].
    pub fn flip_y(self) -> (r: Coordinate)
        ensures
            r == spec_flip_y(self),
    {
        Coordinate { fy: !self.fy, ..self }
    }

    /// Sets the y-axis flip to `v`; everything else is unchanged.
    pub fn flip_y_if(self, v: bool) -> (r: Coordinate)
        ensures
            r == (Coordinate { fy: v, ..self }),
    {
        Coordinate { fy: v, ..self }
    }

    /// Adds the rotation `rot` to the frame's rotation (exact angle
    /// sum); everything else is unchanged.
    pub fn rotate(self, rot: Dir) -> (r: Result<Coordinate, NumericError>)
        requires
            self.wf(),
            rot.wf(),
        ensures
            r matches Ok(c) ==> c.wf() && c.rot.c@ == dir_cos(self.rot, rot) && c.rot.s@
                == dir_sin(self.rot, rot) && c.x == self.x && c.y == self.y && c.fx == self.fx
                && c.fy == self.fy && c.sx == self.sx && c.sy == self.sy,
            frac_fits(frac_mul(self.rot.c@, rot.c@)) && frac_fits(frac_mul(self.rot.s@, rot.s@))
                && frac_fits(frac_mul(self.rot.s@, rot.c@)) && frac_fits(
                frac_mul(self.rot.c@, rot.s@),
            ) && frac_fits(dir_cos(self.rot, rot)) && frac_fits(dir_sin(self.rot, rot)) ==> r
                is Ok,
            r is Err ==> r == Err::<Coordinate, NumericError>(NumericError::Overflow),
    {
        let d = self.rot.compose(rot)?;
        Ok(Coordinate { rot: d, ..self })
    }

    /// Replaces the x scale; everything else is unchanged.
    pub fn scale_x(self, sx: Rat) -> (r: Coordinate)
        requires
            sx.wf(),
        ensures
            r == (Coordinate { sx, ..self }),
    {
        Coordinate { sx, ..self }
    }

    /// Replaces the y scale; everything else is unchanged.
    pub fn scale_y(self, sy: Rat) -> (r: Coordinate)
        requires
            sy.wf(),
        ensures
            r == (Coordinate { sy, ..self }),
    {
        Coordinate { sy, ..self }
    }

    /// Moves the position by `(dx, dy)`, exactly; everything else is
    /// unchanged.
    pub fn translate(self, dx: Rat, dy: Rat) -> (r: Result<Coordinate, NumericError>)
        requires
            self.wf(),
            dx.wf(),
            dy.wf(),
        ensures
            r matches Ok(c) ==> c.wf() && c.x@ == frac_add(self.x@, dx@) && c.y@ == frac_add(
                self.y@,
                dy@,
            ) && c.rot == self.rot && c.fx == self.fx && c.fy == self.fy && c.sx == self.sx
                && c.sy == self.sy,
            frac_fits(frac_add(self.x@, dx@)) && frac_fits(frac_add(self.y@, dy@)) ==> r is Ok,
            r is Err ==> r == Err::<Coordinate, NumericError>(NumericError::Overflow),
    {
        let nx = self.x.add(dx)?;
        let ny = self.y.add(dy)?;
        Ok(Coordinate { x: nx, y: ny, ..self })
    }

    /// The frame's composed linear map (scale, flips, rotation, in that
    /// order) as an exact affine matrix with zero translation.
    pub fn matrix(&self) -> (r: Result<Matrix3, NumericError>)
        requires
            self.wf(),
        ensures
            r matches Ok(m) ==> m.wf() && m@ == lin_mat(*self),
            lin_mat_fits(*self) ==> r is Ok,
            r is Err ==> r == Err::<Matrix3, NumericError>(NumericError::Overflow),
    {
        proof {
            lemma_m3_unit_mul(gm3_scale(self.sx@, self.sy@));
        }
        Matrix3::builder().scale(self.sx, self.sy).flip_x(self.fx).flip_y(self.fy).rotate(
            self.rot,
        ).build()
    }

    /// Resolves `self`, expressed in the frame anchored at `world`, into
    /// the frame `world` itself lives in: the position is mapped through
    /// `world`'s linear map and then moved by `world`'s position;
    /// `self`'s own orientation state is unchanged. Resolving against
    /// the identity frame changes nothing
    /// ([`lemma_identity_composition`]), and resolving through two
    /// frames in turn equals one application of their combined affine
    /// transform ([`lemma_compose_associative`]).
    pub fn reference_to_world(self, world: &Coordinate) -> (r: Result<Coordinate, NumericError>)
        requires
            self.wf(),
            world.wf(),
        ensures
            r matches Ok(c) ==> c.wf() && c.x@ == frac_add(
                gm3_apply_x(lin_mat(*world), self.x@, self.y@),
                world.x@,
            ) && c.y@ == frac_add(gm3_apply_y(lin_mat(*world), self.x@, self.y@), world.y@)
                && c.rot == self.rot && c.fx == self.fx && c.fy == self.fy && c.sx == self.sx
                && c.sy == self.sy,
            lin_mat_fits(*world) && gm3_apply_fits(lin_mat(*world), self.x@, self.y@)
                && frac_fits(
                frac_add(gm3_apply_x(lin_mat(*world), self.x@, self.y@), world.x@),
            ) && frac_fits(
                frac_add(gm3_apply_y(lin_mat(*world), self.x@, self.y@), world.y@),
            ) ==> r is Ok,
            r is Err ==> r == Err::<Coordinate, NumericError>(NumericError::Overflow),
    {
        let m = world.matrix()?;
        let p = m.apply_point(self.x, self.y)?;
        let nx = p.0.add(world.x)?;
        let ny = p.1.add(world.y)?;
        Ok(Coordinate { x: nx, y: ny, ..self })
    }

    /// Resolves the position against the canonical identity frame at the
    /// origin; by identity composition this changes nothing but the
    /// representation.
    pub fn fix(self) -> (r: Result<Coordinate, NumericError>)
        requires
            self.wf(),
        ensures
            r matches Ok(c) ==> c.wf() && frac_eq(c.x@, self.x@) && frac_eq(c.y@, self.y@)
                && c.rot == self.rot && c.fx == self.fx && c.fy == self.fy && c.sx == self.sx
                && c.sy == self.sy,
            fits_num(self.x@.n * self.y@.d) && fits_num(self.y@.n * self.x@.d) && 1 <= self.x@.d
                * self.y@.d <= i64::MAX as int ==> r is Ok,
            r is Err ==> r == Err::<Coordinate, NumericError>(NumericError::Overflow),
    {
        let origin = Coordinate::new(Rat::zero(), Rat::zero());
        proof {
            lemma_m3_unit_mul(gm3_unit());
            assert(gm3_scale(origin.sx@, origin.sy@) == gm3_unit());
            assert(gm3_flip_x(origin.fx) == gm3_unit());
            assert(gm3_flip_y(origin.fy) == gm3_unit());
            assert(gm3_rotate(origin.rot.c@, origin.rot.s@) == gm3_unit());
            assert(lin_mat(origin) == gm3_unit());
            assert(lin_mat_fits(origin));
            let hx: int = self.x@.n * self.y@.d;
            let hy: int = self.y@.n * self.x@.d;
            let hd: int = self.x@.d * self.y@.d;
            assert(gm3_apply_x(gm3_unit(), self.x@, self.y@) == Frac { n: hx, d: hd });
            assert(gm3_apply_y(gm3_unit(), self.x@, self.y@) == Frac { n: hy, d: hd });
            assert(frac_add(gm3_apply_x(gm3_unit(), self.x@, self.y@), origin.x@) == Frac {
                n: hx,
                d: hd,
            });
            assert(frac_add(gm3_apply_y(gm3_unit(), self.x@, self.y@), origin.y@) == Frac {
                n: hy,
                d: hd,
            });
        }
        let r = self.reference_to_world(&origin)?;
        proof {
            lemma_identity_composition(self, origin);
        }
        Ok(r)
    }

    /// The exact Euclidean distance from `self`'s position to `other`'s,
    /// when it is a representable rational.
    pub fn distance(self, other: Coordinate) -> (r: Result<Rat, NumericError>)
        requires
            self.wf(),
            other.wf(),
        ensures
            r matches Ok(v) ==> v.wf() && 0 <= v@.n && frac_eq(
                frac_mul(v@, v@),
                norm_sq(frac_sub(other.x@, self.x@), frac_sub(other.y@, self.y@)),
            ) && v@ == norm_frac(frac_sub(other.x@, self.x@), frac_sub(other.y@, self.y@)),
            frac_fits(frac_sub(other.x@, self.x@)) && frac_fits(frac_sub(other.y@, self.y@))
                && norm_exists(frac_sub(other.x@, self.x@), frac_sub(other.y@, self.y@)) ==> r
                is Ok,
            r is Err ==> r == Err::<Rat, NumericError>(NumericError::Overflow) || r == Err::<
                Rat,
                NumericError,
            >(NumericError::NotRepresentable),
    {
        let a = Vector2::new(self.x, self.y);
        let b = Vector2::new(other.x, other.y);
        a.distance(b)
    }
}

/// Composing with the canonical identity frame is a no-op on the
/// position (and the orientation fields are untouched by construction).
pub proof fn lemma_identity_composition(p: Coordinate, w: Coordinate)
    requires
        p.wf(),
        w.wf(),
        is_identity_coord(w),
    ensures
        frac_eq(frac_add(gm3_apply_x(lin_mat(w), p.x@, p.y@), w.x@), p.x@),
        frac_eq(frac_add(gm3_apply_y(lin_mat(w), p.x@, p.y@), w.y@), p.y@),
{
    assert(gm3_scale(w.sx@, w.sy@) == gm3_unit());
    assert(gm3_flip_x(w.fx) == gm3_unit());
    assert(gm3_flip_y(w.fy) == gm3_unit());
    assert(gm3_rotate(w.rot.c@, w.rot.s@) == gm3_unit());
    lemma_m3_unit_mul(gm3_unit());
    assert(lin_mat(w) == gm3_unit());
    let ax = frac_add(gm3_apply_x(lin_mat(w), p.x@, p.y@), w.x@);
    let ay = frac_add(gm3_apply_y(lin_mat(w), p.x@, p.y@), w.y@);
    assert(ax.n == (p.x@.n * p.y@.d) * 1 + (p.y@.n * p.x@.d) * 0 + (p.x@.d * p.y@.d) * 0);
    assert(ax.d == ((p.x@.d * p.y@.d) * 1) * 1);
    assert((p.x@.n * p.y@.d) * (p.x@.d * 1) == p.x@.n * ((p.x@.d * p.y@.d) * 1))
        by (nonlinear_arith);
    assert((p.y@.n * p.x@.d) * (p.y@.d * 1) == p.y@.n * ((p.x@.d * p.y@.d) * 1))
        by (nonlinear_arith);
}

/// The flip transitions are involutions: applying one twice gives back
/// the original snapshot, exactly.
pub proof fn lemma_flip_involution(p: Coordinate)
    ensures
        spec_flip_x(spec_flip_x(p)) == p,
        spec_flip_y(spec_flip_y(p)) == p,
{
}

/// Operations over ordered collections of coordinates.
pub struct Coordinates;

/// The least x value among the coordinates (by the fold the scan
/// performs: later elements win ties).
pub open spec fn min_x_of(s: Seq<Coordinate>) -> Frac
    decreases s.len(),
{
    if s.len() <= 1 {
        s[0].x@
    } else {
        let m = min_x_of(s.drop_last());
        if frac_le(s.last().x@, m) {
            s.last().x@
        } else {
            m
        }
    }
}

pub open spec fn max_x_of(s: Seq<Coordinate>) -> Frac
    decreases s.len(),
{
    if s.len() <= 1 {
        s[0].x@
    } else {
        let m = max_x_of(s.drop_last());
        if frac_le(m, s.last().x@) {
            s.last().x@
        } else {
            m
        }
    }
}

pub open spec fn min_y_of(s: Seq<Coordinate>) -> Frac
    decreases s.len(),
{
    if s.len() <= 1 {
        s[0].y@
    } else {
        let m = min_y_of(s.drop_last());
        if frac_le(s.last().y@, m) {
            s.last().y@
        } else {
            m
        }
    }
}

pub open spec fn max_y_of(s: Seq<Coordinate>) -> Frac
    decreases s.len(),
{
    if s.len() <= 1 {
        s[0].y@
    } else {
        let m = max_y_of(s.drop_last());
        if frac_le(m, s.last().y@) {
            s.last().y@
        } else {
            m
        }
    }
}

/// The axis-indicator scale of a point set: the smaller bounding-box
/// extent divided by ten.
pub open spec fn axis_scale_frac(s: Seq<Coordinate>) -> Frac {
    let dx = frac_sub(max_x_of(s), min_x_of(s));
    let dy = frac_sub(max_y_of(s), min_y_of(s));
    let d = if frac_le(dx, dy) {
        dx
    } else {
        dy
    };
    frac_mul(d, frac_recip(Frac { n: 10, d: 1 }))
}

impl Coordinates {
    /// `min(width, height) / 10` over the bounding box of the points:
    /// the scale for a frame's axis indicator. Requires at least one
    /// point (`TooFewPoints` below that); a degenerate set of equal
    /// points yields zero and does not fail.
    pub fn axis_scale(coordinates: &Vec<Coordinate>) -> (r: Result<Rat, Error>)
        requires
            forall|i: int| 0 <= i < coordinates@.len() ==> (#[trigger] coordinates@[i]).wf(),
        ensures
            coordinates@.len() == 0 ==> r == Err::<Rat, Error>(
                Error::Precondition(PreconditionError::TooFewPoints),
            ),
            r matches Ok(v) ==> coordinates@.len() >= 1 && v.wf() && v@ == axis_scale_frac(
                coordinates@,
            ),
            coordinates@.len() >= 1 && frac_fits(
                frac_sub(max_x_of(coordinates@), min_x_of(coordinates@)),
            ) && frac_fits(frac_sub(max_y_of(coordinates@), min_y_of(coordinates@))) && frac_fits(
                axis_scale_frac(coordinates@),
            ) ==> r is Ok,
            coordinates@.len() >= 1 && (r is Err) ==> r == Err::<Rat, Error>(
                Error::Numeric(NumericError::Overflow),
            ),
    {
        if coordinates.len() == 0 {
            return Err(Error::Precondition(PreconditionError::TooFewPoints));
        }
        let first = coordinates[0];
        let mut min_x = first.x;
        let mut max_x = first.x;
        let mut min_y = first.y;
        let mut max_y = first.y;
        let ghost s = coordinates@;
        proof {
            assert(s.take(1) =~= seq![s[0]]);
        }
        let mut i: usize = 1;
        while i < coordinates.len()
            invariant
                1 <= i <= s.len(),
                s == coordinates@,
                forall|j: int| 0 <= j < s.len() ==> (#[trigger] s[j]).wf(),
                min_x.wf() && max_x.wf() && min_y.wf() && max_y.wf(),
                min_x@ == min_x_of(s.take(i as int)),
                max_x@ == max_x_of(s.take(i as int)),
                min_y@ == min_y_of(s.take(i as int)),
                max_y@ == max_y_of(s.take(i as int)),
            decreases s.len() - i,
        {
            let c = coordinates[i];
            proof {
                assert(s.take(i as int + 1).drop_last() =~= s.take(i as int));
                assert(s.take(i as int + 1).last() == s[i as int]);
            }
            if c.x.le(&min_x) {
                min_x = c.x;
            }
            if max_x.le(&c.x) {
                max_x = c.x;
            }
            if c.y.le(&min_y) {
                min_y = c.y;
            }
            if max_y.le(&c.y) {
                max_y = c.y;
            }
            i = i + 1;
        }
        proof {
            assert(s.take(s.len() as int) =~= s);
        }
        let dx = match max_x.sub(min_x) {
            Ok(v) => v,
            Err(_) => {
                return Err(Error::Numeric(NumericError::Overflow));
            },
        };
        let dy = match max_y.sub(min_y) {
            Ok(v) => v,
            Err(_) => {
                return Err(Error::Numeric(NumericError::Overflow));
            },
        };
        let d = if dx.le(&dy) {
            dx
        } else {
            dy
        };
        match d.div(Rat::from_int(10)) {
            Ok(v) => Ok(v),
            Err(_) => Err(Error::Numeric(NumericError::Overflow)),
        }
    }
}

/// The frame's full affine transform: its linear map followed by the
/// translation to its position.
pub open spec fn affine_mat(c: Coordinate) -> Gm3 {
    gm3_mul(lin_mat(c), gm3_translate(c.x@, c.y@))
}

/// The linear and affine matrices of a well-formed frame are
/// well-formed affine matrices.
pub proof fn lemma_frame_mats(c: Coordinate)
    requires
        c.wf(),
    ensures
        gm3_wf(lin_mat(c)),
        gm3_wf(affine_mat(c)),
        gm3_affine(lin_mat(c)),
        gm3_affine(affine_mat(c)),
{
    let m1 = gm3_scale(c.sx@, c.sy@);
    let m2 = gm3_mul(m1, gm3_flip_x(c.fx));
    let m3 = gm3_mul(m2, gm3_flip_y(c.fy));
    let rot = gm3_rotate(c.rot.c@, c.rot.s@);
    assert(m1.d >= 1) by (nonlinear_arith)
        requires
            m1.d == c.sx@.d * c.sy@.d,
            c.sx@.d >= 1,
            c.sy@.d >= 1;
    assert(m2.d == m1.d * 1 && m3.d == m2.d * 1);
    assert(lin_mat(c).d == m3.d * rot.d);
    assert(lin_mat(c).d >= 1) by (nonlinear_arith)
        requires
            lin_mat(c).d == m3.d * rot.d,
            m3.d >= 1,
            rot.d == c.rot.c@.d * c.rot.s@.d,
            c.rot.c@.d >= 1,
            c.rot.s@.d >= 1;
    assert(gm3_affine(m1));
    lemma_mul_affine(m1, gm3_flip_x(c.fx));
    lemma_mul_affine(m2, gm3_flip_y(c.fy));
    assert(gm3_affine(rot));
    lemma_mul_affine(m3, rot);
    lemma_mul_affine(lin_mat(c), gm3_translate(c.x@, c.y@));
    assert(affine_mat(c).d >= 1) by (nonlinear_arith)
        requires
            affine_mat(c).d == lin_mat(c).d * (c.x@.d * c.y@.d),
            lin_mat(c).d >= 1,
            c.x@.d >= 1,
            c.y@.d >= 1;
}

/// Resolving a position through the frame `b` and then through the
/// frame `c` lands it exactly where the single combined affine
/// transform "b, then c" puts it: frame composition is associative.
///
/// `(x1, y1)` is the position after resolving through `b` (the shape
/// `reference_to_world` pins), `(x2, y2)` the position after resolving
/// that through `c`.
pub proof fn lemma_compose_associative(
    p: Coordinate,
    b: Coordinate,
    c: Coordinate,
    x1: Frac,
    y1: Frac,
    x2: Frac,
    y2: Frac,
)
    requires
        p.wf(),
        b.wf(),
        c.wf(),
        x1 == frac_add(gm3_apply_x(lin_mat(b), p.x@, p.y@), b.x@),
        y1 == frac_add(gm3_apply_y(lin_mat(b), p.x@, p.y@), b.y@),
        x2 == frac_add(gm3_apply_x(lin_mat(c), x1, y1), c.x@),
        y2 == frac_add(gm3_apply_y(lin_mat(c), x1, y1), c.y@),
    ensures
        frac_eq(x2, gm3_apply_x(gm3_mul(affine_mat(b), affine_mat(c)), p.x@, p.y@)),
        frac_eq(y2, gm3_apply_y(gm3_mul(affine_mat(b), affine_mat(c)), p.x@, p.y@)),
{
    let px = p.x@;
    let py = p.y@;
    let lb = lin_mat(b);
    let lc = lin_mat(c);
    let ab = affine_mat(b);
    let ac = affine_mat(c);
    lemma_frame_mats(b);
    lemma_frame_mats(c);
    // The intermediate position after `b`, as the application of `b`'s
    // full affine matrix.
    let gx1 = gm3_apply_x(ab, px, py);
    let gy1 = gm3_apply_y(ab, px, py);
    lemma_apply_translate(lb, b.x@, b.y@, px, py);
    assert(frac_eq(gx1, x1));
    assert(frac_eq(gy1, y1));
    // Denominators of the intermediates are positive.
    assert(x1.d >= 1 && y1.d >= 1 && gx1.d >= 1 && gy1.d >= 1) by (nonlinear_arith)
        requires
            x1.d == ((px.d * py.d) * lb.d) * b.x@.d,
            y1.d == ((px.d * py.d) * lb.d) * b.y@.d,
            gx1.d == (px.d * py.d) * ab.d,
            gy1.d == (px.d * py.d) * ab.d,
            px.d >= 1,
            py.d >= 1,
            lb.d >= 1,
            ab.d >= 1,
            b.x@.d >= 1,
            b.y@.d >= 1;
    // Resolving through `c` is the application of `c`'s affine matrix.
    lemma_apply_translate(lc, c.x@, c.y@, x1, y1);
    assert(frac_eq(gm3_apply_x(ac, x1, y1), x2));
    assert(frac_eq(gm3_apply_y(ac, x1, y1), y2));
    // The same application on the value-equal intermediate point.
    crate::rat::lemma_frac_eq_sym(gx1, x1);
    crate::rat::lemma_frac_eq_sym(gy1, y1);
    lemma_apply_congr(ac, x1, y1, gx1, gy1);
    // One application of the product matrix.
    lemma_apply_assoc(px, py, ab, ac);
    // Chain the equalities.
    let mid1 = gm3_apply_x(ac, x1, y1);
    let mid2 = gm3_apply_x(ac, gx1, gy1);
    let rhs = gm3_apply_x(gm3_mul(ab, ac), px, py);
    assert(mid1.d >= 1 && mid2.d >= 1) by (nonlinear_arith)
        requires
            mid1.d == (x1.d * y1.d) * ac.d,
            mid2.d == (gx1.d * gy1.d) * ac.d,
            x1.d >= 1,
            y1.d >= 1,
            gx1.d >= 1,
            gy1.d >= 1,
            ac.d >= 1;
    crate::rat::lemma_frac_eq_sym(mid1, x2);
    crate::rat::lemma_frac_eq_trans(x2, mid1, mid2);
    crate::rat::lemma_frac_eq_trans(x2, mid2, rhs);
    let mid1y = gm3_apply_y(ac, x1, y1);
    let mid2y = gm3_apply_y(ac, gx1, gy1);
    let rhsy = gm3_apply_y(gm3_mul(ab, ac), px, py);
    crate::rat::lemma_frac_eq_sym(mid1y, y2);
    crate::rat::lemma_frac_eq_trans(y2, mid1y, mid2y);
    crate::rat::lemma_frac_eq_trans(y2, mid2y, rhsy);
}

} // verus!
