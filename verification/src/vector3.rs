//! Three-component vectors over exact rational scalars.
//!
//! Besides plain spatial use, a `Vector3` serves as a homogeneous planar
//! point `(x, y, 1)` for multiplication with an affine matrix.

use vstd::prelude::*;

use crate::error::NumericError;
use crate::rat::{frac_add, frac_eq, frac_fits, frac_mul, frac_recip, nat_sqrt, Frac, Rat};

verus! {

/// A vector with three exact rational components.
#[derive(Clone, Copy, Debug)]
pub struct Vector3 {
    pub x: Rat,
    pub y: Rat,
    pub z: Rat,
}

/// The exact squared Euclidean norm of `(x, y, z)`.
pub open spec fn norm3_sq(x: Frac, y: Frac, z: Frac) -> Frac {
    frac_add(frac_add(frac_mul(x, x), frac_mul(y, y)), frac_mul(z, z))
}

/// The squared norm is computable and a perfect square, so the exact
/// norm exists in the representation.
pub open spec fn norm3_exists(x: Frac, y: Frac, z: Frac) -> bool {
    let s = norm3_sq(x, y, z);
    &&& frac_fits(frac_mul(x, x))
    &&& frac_fits(frac_mul(y, y))
    &&& frac_fits(frac_mul(z, z))
    &&& frac_fits(frac_add(frac_mul(x, x), frac_mul(y, y)))
    &&& frac_fits(s)
    &&& exists|k: int| 0 <= k && #[trigger] (k * k) == s.n * s.d
}

/// The exact norm, as a fraction over the squared norm's denominator
/// (meaningful when [`norm3_exists`] holds).
pub open spec fn norm3_frac(x: Frac, y: Frac, z: Frac) -> Frac {
    let s = norm3_sq(x, y, z);
    Frac { n: nat_sqrt(s.n * s.d), d: s.d }
}

/// Dividing the components by the exact norm stays representable.
pub open spec fn normalize3_fits(x: Frac, y: Frac, z: Frac) -> bool {
    &&& frac_fits(frac_mul(x, frac_recip(norm3_frac(x, y, z))))
    &&& frac_fits(frac_mul(y, frac_recip(norm3_frac(x, y, z))))
    &&& frac_fits(frac_mul(z, frac_recip(norm3_frac(x, y, z))))
}

impl Vector3 {
    pub open spec fn wf(self) -> bool {
        self.x.wf() && self.y.wf() && self.z.wf()
    }

    pub fn new(x: Rat, y: Rat, z: Rat) -> (r: Vector3)
        requires
            x.wf(),
            y.wf(),
            z.wf(),
        ensures
            r.wf(),
            r.x == x,
            r.y == y,
            r.z == z,
    {
        Vector3 { x, y, z }
    }

    /// The exact Euclidean norm, when it is a representable rational:
    /// `Overflow` when the squared norm does not fit, `NotRepresentable`
    /// when the norm is irrational.
    pub fn length(self) -> (r: Result<Rat, NumericError>)
        requires
            self.wf(),
        ensures
            r matches Ok(v) ==> v.wf() && 0 <= v@.n && frac_eq(
                frac_mul(v@, v@),
                norm3_sq(self.x@, self.y@, self.z@),
            ) && v@ == norm3_frac(self.x@, self.y@, self.z@),
            norm3_exists(self.x@, self.y@, self.z@) ==> r is Ok,
            r is Err ==> r == Err::<Rat, NumericError>(NumericError::Overflow) || r == Err::<
                Rat,
                NumericError,
            >(NumericError::NotRepresentable),
    {
        let xx = self.x.mul(self.x)?;
        let yy = self.y.mul(self.y)?;
        let zz = self.z.mul(self.z)?;
        let s2 = xx.add(yy)?;
        let s = s2.add(zz)?;
        proof {
            lemma_norm3_sq_nonneg(self.x@, self.y@, self.z@);
        }
        s.sqrt()
    }

    /// The vector divided by its exact Euclidean norm.
    ///
    /// Fails with `ZeroLength` exactly on the zero vector,
    /// `NotRepresentable` when the norm is irrational, `Overflow` when
    /// an exact intermediate does not fit; succeeds whenever the exact
    /// norm exists and the quotients fit. On success the result is
    /// `self` scaled by the reciprocal of the exact (positive) norm.
    pub fn normalize(self) -> (r: Result<Vector3, NumericError>)
        requires
            self.wf(),
        ensures
            r matches Ok(v) ==> v.wf() && (exists|l: Frac|
                l.d >= 1 && l.n > 0 && frac_eq(
                    #[trigger] frac_mul(l, l),
                    norm3_sq(self.x@, self.y@, self.z@),
                ) && v.x@ == frac_mul(self.x@, frac_recip(l)) && v.y@ == frac_mul(
                    self.y@,
                    frac_recip(l),
                ) && v.z@ == frac_mul(self.z@, frac_recip(l))),
            self.x.num == 0 && self.y.num == 0 && self.z.num == 0 <==> r == Err::<
                Vector3,
                NumericError,
            >(NumericError::ZeroLength),
            !(self.x.num == 0 && self.y.num == 0 && self.z.num == 0) && norm3_exists(
                self.x@,
                self.y@,
                self.z@,
            ) && normalize3_fits(self.x@, self.y@, self.z@) ==> r is Ok,
            r is Err ==> r == Err::<Vector3, NumericError>(NumericError::ZeroLength) || r
                == Err::<Vector3, NumericError>(NumericError::Overflow) || r == Err::<
                Vector3,
                NumericError,
            >(NumericError::NotRepresentable),
    {
        if self.x.is_zero() && self.y.is_zero() && self.z.is_zero() {
            return Err(NumericError::ZeroLength);
        }
        let l = self.length()?;
        proof {
            lemma_nonzero_norm3(self.x@, self.y@, self.z@, l@);
        }
        if l.is_zero() {
            return Err(NumericError::ZeroLength);
        }
        let x = self.x.div(l)?;
        let y = self.y.div(l)?;
        let z = self.z.div(l)?;
        proof {
            assert(frac_eq(frac_mul(l@, l@), norm3_sq(self.x@, self.y@, self.z@)));
        }
        Ok(Vector3 { x, y, z })
    }
}

/// The exact norm of a nonzero vector is nonzero.
proof fn lemma_nonzero_norm3(x: Frac, y: Frac, z: Frac, l: Frac)
    requires
        x.d >= 1,
        y.d >= 1,
        z.d >= 1,
        l.d >= 1,
        !(x.n == 0 && y.n == 0 && z.n == 0),
        frac_eq(frac_mul(l, l), norm3_sq(x, y, z)),
    ensures
        l.n != 0,
{
    let a: int = x.n;
    let b: int = x.d;
    let c: int = y.n;
    let d: int = y.d;
    let e: int = z.n;
    let f: int = z.d;
    let sn: int = ((a * a) * (d * d) + (c * c) * (b * b)) * (f * f) + (e * e) * ((b * b) * (d
        * d));
    let sd: int = ((b * b) * (d * d)) * (f * f);
    assert(norm3_sq(x, y, z) == Frac { n: sn, d: sd });
    assert(sd >= 1) by (nonlinear_arith)
        requires
            sd == ((b * b) * (d * d)) * (f * f),
            b >= 1,
            d >= 1,
            f >= 1;
    if a != 0 {
        assert(sn >= 1) by (nonlinear_arith)
            requires
                sn == ((a * a) * (d * d) + (c * c) * (b * b)) * (f * f) + (e * e) * ((b * b) * (d
                    * d)),
                a != 0,
                b >= 1,
                d >= 1,
                f >= 1;
    } else if c != 0 {
        assert(sn >= 1) by (nonlinear_arith)
            requires
                sn == ((a * a) * (d * d) + (c * c) * (b * b)) * (f * f) + (e * e) * ((b * b) * (d
                    * d)),
                c != 0,
                b >= 1,
                d >= 1,
                f >= 1;
    } else {
        assert(sn >= 1) by (nonlinear_arith)
            requires
                sn == ((a * a) * (d * d) + (c * c) * (b * b)) * (f * f) + (e * e) * ((b * b) * (d
                    * d)),
                e != 0,
                b >= 1,
                d >= 1,
                f >= 1;
    }
    assert(l.n != 0) by (nonlinear_arith)
        requires
            (l.n * l.n) * sd == sn * (l.d * l.d),
            sn >= 1,
            sd >= 1,
            l.d >= 1;
}

/// A sum of three squares of rationals has a nonnegative numerator.
proof fn lemma_norm3_sq_nonneg(x: Frac, y: Frac, z: Frac)
    requires
        x.d >= 1,
        y.d >= 1,
        z.d >= 1,
    ensures
        0 <= norm3_sq(x, y, z).n,
{
    let a: int = x.n;
    let b: int = x.d;
    let c: int = y.n;
    let d: int = y.d;
    let e: int = z.n;
    let f: int = z.d;
    assert(((a * a) * (d * d) + (c * c) * (b * b)) * (f * f) + (e * e) * ((b * b) * (d * d)) >= 0)
        by (nonlinear_arith);
    assert(norm3_sq(x, y, z).n == ((a * a) * (d * d) + (c * c) * (b * b)) * (f * f) + (e * e) * ((b
        * b) * (d * d)));
}

} // verus!
