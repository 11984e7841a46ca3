//! Planar vectors over exact rational scalars.

use vstd::prelude::*;

use crate::error::NumericError;
use crate::rat::{
    frac_add, frac_eq, frac_fits, frac_from_int, frac_lt, frac_mul, frac_neg, frac_recip,
    frac_sub, nat_sqrt, Frac, Rat,
};

verus! {

/// A planar vector with exact rational components.
#[derive(Clone, Copy, Debug)]
pub struct Vector2 {
    pub x: Rat,
    pub y: Rat,
}

/// The exact squared Euclidean norm of `(x, y)`.
pub open spec fn norm_sq(x: Frac, y: Frac) -> Frac {
    frac_add(frac_mul(x, x), frac_mul(y, y))
}

/// The squared norm of `(x, y)` is computable and a perfect square, so
/// the exact norm exists in the representation.
pub open spec fn norm_exists(x: Frac, y: Frac) -> bool {
    let s = norm_sq(x, y);
    &&& frac_fits(frac_mul(x, x))
    &&& frac_fits(frac_mul(y, y))
    &&& frac_fits(s)
    &&& exists|k: int| 0 <= k && #[trigger] (k * k) == s.n * s.d
}

/// The exact norm of `(x, y)`, as a fraction over the squared norm's
/// denominator (meaningful when [`norm_exists`] holds).
pub open spec fn norm_frac(x: Frac, y: Frac) -> Frac {
    let s = norm_sq(x, y);
    Frac { n: nat_sqrt(s.n * s.d), d: s.d }
}

/// Dividing the components by the exact norm stays representable.
pub open spec fn normalize_fits(x: Frac, y: Frac) -> bool {
    &&& frac_fits(frac_mul(x, frac_recip(norm_frac(x, y))))
    &&& frac_fits(frac_mul(y, frac_recip(norm_frac(x, y))))
}

impl Vector2 {
    pub open spec fn wf(self) -> bool {
        self.x.wf() && self.y.wf()
    }

    pub fn new(x: Rat, y: Rat) -> (r: Vector2)
        requires
            x.wf(),
            y.wf(),
        ensures
            r.wf(),
            r.x == x,
            r.y == y,
    {
        Vector2 { x, y }
    }

    /// Componentwise sum; exact, `Overflow` when a component does not fit.
    pub fn add(self, rhs: Vector2) -> (r: Result<Vector2, NumericError>)
        requires
            self.wf(),
            rhs.wf(),
        ensures
            r matches Ok(v) ==> v.wf() && v.x@ == frac_add(self.x@, rhs.x@) && v.y@ == frac_add(
                self.y@,
                rhs.y@,
            ),
            frac_fits(frac_add(self.x@, rhs.x@)) && frac_fits(frac_add(self.y@, rhs.y@)) ==> r
                is Ok,
            r is Err ==> r == Err::<Vector2, NumericError>(NumericError::Overflow),
    {
        let x = self.x.add(rhs.x)?;
        let y = self.y.add(rhs.y)?;
        Ok(Vector2 { x, y })
    }

    /// Componentwise difference; exact, `Overflow` when a component does
    /// not fit.
    pub fn sub(self, rhs: Vector2) -> (r: Result<Vector2, NumericError>)
        requires
            self.wf(),
            rhs.wf(),
        ensures
            r matches Ok(v) ==> v.wf() && v.x@ == frac_sub(self.x@, rhs.x@) && v.y@ == frac_sub(
                self.y@,
                rhs.y@,
            ),
            frac_fits(frac_sub(self.x@, rhs.x@)) && frac_fits(frac_sub(self.y@, rhs.y@)) ==> r
                is Ok,
            r is Err ==> r == Err::<Vector2, NumericError>(NumericError::Overflow),
    {
        let x = self.x.sub(rhs.x)?;
        let y = self.y.sub(rhs.y)?;
        Ok(Vector2 { x, y })
    }

    /// Exact negation; always succeeds.
    pub fn neg(self) -> (r: Vector2)
        requires
            self.wf(),
        ensures
            r.wf(),
            r.x@ == frac_neg(self.x@),
            r.y@ == frac_neg(self.y@),
    {
        Vector2 { x: self.x.neg(), y: self.y.neg() }
    }

    /// Scalar multiple; exact, `Overflow` when a component does not fit.
    pub fn mul(self, k: Rat) -> (r: Result<Vector2, NumericError>)
        requires
            self.wf(),
            k.wf(),
        ensures
            r matches Ok(v) ==> v.wf() && v.x@ == frac_mul(self.x@, k@) && v.y@ == frac_mul(
                self.y@,
                k@,
            ),
            frac_fits(frac_mul(self.x@, k@)) && frac_fits(frac_mul(self.y@, k@)) ==> r is Ok,
            r is Err ==> r == Err::<Vector2, NumericError>(NumericError::Overflow),
    {
        let x = self.x.mul(k)?;
        let y = self.y.mul(k)?;
        Ok(Vector2 { x, y })
    }

    /// Scalar quotient: `DivisionByZero` on a zero scalar, otherwise the
    /// exact componentwise quotient.
    pub fn div(self, k: Rat) -> (r: Result<Vector2, NumericError>)
        requires
            self.wf(),
            k.wf(),
        ensures
            r matches Ok(v) ==> v.wf() && v.x@ == frac_mul(self.x@, frac_recip(k@)) && v.y@
                == frac_mul(self.y@, frac_recip(k@)),
            k.num == 0 ==> r == Err::<Vector2, NumericError>(NumericError::DivisionByZero),
            k.num != 0 && frac_fits(frac_mul(self.x@, frac_recip(k@))) && frac_fits(
                frac_mul(self.y@, frac_recip(k@)),
            ) ==> r is Ok,
            r is Err ==> r == Err::<Vector2, NumericError>(NumericError::DivisionByZero) || r
                == Err::<Vector2, NumericError>(NumericError::Overflow),
    {
        let x = self.x.div(k)?;
        let y = self.y.div(k)?;
        Ok(Vector2 { x, y })
    }

    /// The exact dot product.
    pub fn dot_product(self, rhs: Vector2) -> (r: Result<Rat, NumericError>)
        requires
            self.wf(),
            rhs.wf(),
        ensures
            r matches Ok(v) ==> v.wf() && v@ == frac_add(
                frac_mul(self.x@, rhs.x@),
                frac_mul(self.y@, rhs.y@),
            ),
            frac_fits(frac_mul(self.x@, rhs.x@)) && frac_fits(frac_mul(self.y@, rhs.y@))
                && frac_fits(
                frac_add(frac_mul(self.x@, rhs.x@), frac_mul(self.y@, rhs.y@)),
            ) ==> r is Ok,
            r is Err ==> r == Err::<Rat, NumericError>(NumericError::Overflow),
    {
        let xx = self.x.mul(rhs.x)?;
        let yy = self.y.mul(rhs.y)?;
        xx.add(yy)
    }

    /// The exact perpendicular dot product `-y1*x2 + x1*y2` (the planar
    /// analogue of the cross product).
    pub fn perp_dot_product(self, rhs: Vector2) -> (r: Result<Rat, NumericError>)
        requires
            self.wf(),
            rhs.wf(),
        ensures
            r matches Ok(v) ==> v.wf() && v@ == frac_add(
                frac_mul(frac_neg(self.y@), rhs.x@),
                frac_mul(self.x@, rhs.y@),
            ),
            frac_fits(frac_mul(frac_neg(self.y@), rhs.x@)) && frac_fits(
                frac_mul(self.x@, rhs.y@),
            ) && frac_fits(
                frac_add(frac_mul(frac_neg(self.y@), rhs.x@), frac_mul(self.x@, rhs.y@)),
            ) ==> r is Ok,
            r is Err ==> r == Err::<Rat, NumericError>(NumericError::Overflow),
    {
        let a = self.y.neg().mul(rhs.x)?;
        let b = self.x.mul(rhs.y)?;
        a.add(b)
    }

    /// The exact Euclidean norm, when it is a representable rational:
    /// `Overflow` when the squared norm does not fit, `NotRepresentable`
    /// when the norm is irrational.
    pub fn length(self) -> (r: Result<Rat, NumericError>)
        requires
            self.wf(),
        ensures
            r matches Ok(v) ==> v.wf() && 0 <= v@.n && frac_eq(
                frac_mul(v@, v@),
                norm_sq(self.x@, self.y@),
            ) && v@ == norm_frac(self.x@, self.y@),
            norm_exists(self.x@, self.y@) ==> r is Ok,
            r is Err ==> r == Err::<Rat, NumericError>(NumericError::Overflow) || r == Err::<
                Rat,
                NumericError,
            >(NumericError::NotRepresentable),
    {
        let s = self.dot_product(self)?;
        proof {
            assert(0 <= s@.n) by (nonlinear_arith)
                requires
                    s@.n == self.x@.n * self.x@.n * (self.y@.d * self.y@.d) + self.y@.n * self.y@.n
                        * (self.x@.d * self.x@.d);
        }
        s.sqrt()
    }

    /// The distance between the two points: the norm of `rhs - self`.
    pub fn distance(self, rhs: Vector2) -> (r: Result<Rat, NumericError>)
        requires
            self.wf(),
            rhs.wf(),
        ensures
            r matches Ok(v) ==> v.wf() && 0 <= v@.n && frac_eq(
                frac_mul(v@, v@),
                norm_sq(frac_sub(rhs.x@, self.x@), frac_sub(rhs.y@, self.y@)),
            ) && v@ == norm_frac(frac_sub(rhs.x@, self.x@), frac_sub(rhs.y@, self.y@)),
            frac_fits(frac_sub(rhs.x@, self.x@)) && frac_fits(frac_sub(rhs.y@, self.y@))
                && norm_exists(frac_sub(rhs.x@, self.x@), frac_sub(rhs.y@, self.y@)) ==> r is Ok,
            r is Err ==> r == Err::<Rat, NumericError>(NumericError::Overflow) || r == Err::<
                Rat,
                NumericError,
            >(NumericError::NotRepresentable),
    {
        let d = rhs.sub(self)?;
        d.length()
    }

    /// The unit vector with the direction of `self`.
    ///
    /// Fails with `ZeroLength` exactly on the zero vector (never a
    /// silent NaN-like result), `NotRepresentable` when the norm is
    /// irrational, `Overflow` when an exact intermediate does not fit;
    /// succeeds whenever the exact norm exists and the quotients fit. On
    /// success the result has exact squared norm one, is parallel to
    /// `self`, and points the same way.
    pub fn normalize(self) -> (r: Result<Vector2, NumericError>)
        requires
            self.wf(),
        ensures
            r matches Ok(v) ==> v.wf() && frac_eq(norm_sq(v.x@, v.y@), frac_from_int(1))
                && frac_eq(frac_mul(v.x@, self.y@), frac_mul(v.y@, self.x@)) && frac_lt(
                frac_from_int(0),
                frac_add(frac_mul(v.x@, self.x@), frac_mul(v.y@, self.y@)),
            ),
            self.x.num == 0 && self.y.num == 0 <==> r == Err::<Vector2, NumericError>(
                NumericError::ZeroLength,
            ),
            !(self.x.num == 0 && self.y.num == 0) && norm_exists(self.x@, self.y@)
                && normalize_fits(self.x@, self.y@) ==> r is Ok,
            r is Err ==> r == Err::<Vector2, NumericError>(NumericError::ZeroLength) || r
                == Err::<Vector2, NumericError>(NumericError::Overflow) || r == Err::<
                Vector2,
                NumericError,
            >(NumericError::NotRepresentable),
    {
        if self.x.is_zero() && self.y.is_zero() {
            return Err(NumericError::ZeroLength);
        }
        let l = self.length()?;
        proof {
            lemma_nonzero_norm(self.x@, self.y@, l@);
        }
        if l.is_zero() {
            return Err(NumericError::ZeroLength);
        }
        let x = self.x.div(l)?;
        let y = self.y.div(l)?;
        proof {
            lemma_normalize_props(self.x@, self.y@, l@, x@, y@);
        }
        Ok(Vector2 { x, y })
    }
}

/// The exact norm of a nonzero vector is nonzero.
proof fn lemma_nonzero_norm(x: Frac, y: Frac, l: Frac)
    requires
        x.d >= 1,
        y.d >= 1,
        l.d >= 1,
        !(x.n == 0 && y.n == 0),
        frac_eq(frac_mul(l, l), norm_sq(x, y)),
    ensures
        l.n != 0,
{
    let a: int = x.n;
    let b: int = x.d;
    let c: int = y.n;
    let d: int = y.d;
    let sn: int = (a * a) * (d * d) + (c * c) * (b * b);
    let sd: int = (b * b) * (d * d);
    assert(norm_sq(x, y) == Frac { n: sn, d: sd });
    assert(sd >= 1) by (nonlinear_arith)
        requires
            sd == (b * b) * (d * d),
            b >= 1,
            d >= 1;
    if a != 0 {
        assert(sn >= 1) by (nonlinear_arith)
            requires
                sn == (a * a) * (d * d) + (c * c) * (b * b),
                a != 0,
                b >= 1,
                d >= 1;
    } else {
        assert(sn >= 1) by (nonlinear_arith)
            requires
                sn == (a * a) * (d * d) + (c * c) * (b * b),
                c != 0,
                b >= 1,
                d >= 1;
    }
    assert(l.n != 0) by (nonlinear_arith)
        requires
            (l.n * l.n) * sd == sn * (l.d * l.d),
            sn >= 1,
            sd >= 1,
            l.d >= 1;
}

/// Dividing a vector by its (positive, exact) norm yields a unit vector
/// that is parallel to the original and points the same way.
proof fn lemma_normalize_props(x: Frac, y: Frac, l: Frac, vx: Frac, vy: Frac)
    requires
        x.d >= 1,
        y.d >= 1,
        l.d >= 1,
        l.n > 0,
        frac_eq(frac_mul(l, l), norm_sq(x, y)),
        vx == frac_mul(x, frac_recip(l)),
        vy == frac_mul(y, frac_recip(l)),
    ensures
        frac_eq(norm_sq(vx, vy), frac_from_int(1)),
        frac_eq(frac_mul(vx, y), frac_mul(vy, x)),
        frac_lt(frac_from_int(0), frac_add(frac_mul(vx, x), frac_mul(vy, y))),
{
    let a: int = x.n;
    let b: int = x.d;
    let c: int = y.n;
    let d: int = y.d;
    let p: int = l.n;
    let q: int = l.d;
    let s: int = (a * a) * (d * d) + (c * c) * (b * b);
    assert(vx == Frac { n: a * q, d: b * p } && vy == Frac { n: c * q, d: d * p });
    assert(p * p * ((b * b) * (d * d)) == s * (q * q));
    // The squared norm of the original is strictly positive.
    assert(s >= 1) by (nonlinear_arith)
        requires
            p * p * ((b * b) * (d * d)) == s * (q * q),
            p >= 1,
            b >= 1,
            d >= 1,
            q >= 1,
            s == (a * a) * (d * d) + (c * c) * (b * b);
    // Unit squared norm: both sides equal p^4 * b^2 * d^2.
    let un: int = ((a * q) * (a * q)) * ((d * p) * (d * p)) + ((c * q) * (c * q)) * ((b * p) * (b
        * p));
    let ud: int = ((b * p) * (b * p)) * ((d * p) * (d * p));
    let sq: int = q * q;
    let sp: int = p * p;
    let saa: int = a * a;
    let sdd: int = d * d;
    let scc: int = c * c;
    let sbb: int = b * b;
    assert((a * q) * (a * q) == saa * sq) by (nonlinear_arith)
        requires
            saa == a * a,
            sq == q * q;
    assert((d * p) * (d * p) == sdd * sp) by (nonlinear_arith)
        requires
            sdd == d * d,
            sp == p * p;
    assert((c * q) * (c * q) == scc * sq) by (nonlinear_arith)
        requires
            scc == c * c,
            sq == q * q;
    assert((b * p) * (b * p) == sbb * sp) by (nonlinear_arith)
        requires
            sbb == b * b,
            sp == p * p;
    assert((saa * sq) * (sdd * sp) == sq * sp * (saa * sdd)) by (nonlinear_arith);
    assert((scc * sq) * (sbb * sp) == sq * sp * (scc * sbb)) by (nonlinear_arith);
    assert(((a * q) * (a * q)) * ((d * p) * (d * p)) == (q * q) * (p * p) * ((a * a) * (d * d)));
    assert(((c * q) * (c * q)) * ((b * p) * (b * p)) == (q * q) * (p * p) * ((c * c) * (b * b)));
    assert((q * q) * (p * p) * ((a * a) * (d * d)) + (q * q) * (p * p) * ((c * c) * (b * b)) == (q
        * q) * (p * p) * s) by (nonlinear_arith)
        requires
            s == (a * a) * (d * d) + (c * c) * (b * b);
    assert(un == (q * q) * (p * p) * s);
    assert((q * q) * (p * p) * s == (p * p) * (p * p) * ((b * b) * (d * d))) by (nonlinear_arith)
        requires
            s * (q * q) == p * p * ((b * b) * (d * d));
    assert(ud == (p * p) * (p * p) * ((b * b) * (d * d))) by (nonlinear_arith)
        requires
            ud == ((b * p) * (b * p)) * ((d * p) * (d * p));
    assert(norm_sq(vx, vy).n == un && norm_sq(vx, vy).d == ud);
    assert(un * 1 == 1 * ud);
    // Parallelism: a pure rearrangement.
    assert(((a * q) * c) * ((d * p) * b) == ((c * q) * a) * ((b * p) * d)) by (nonlinear_arith);
    // Positive dot product with the original: q * p * s >= 1.
    let dn: int = ((a * q) * a) * ((d * p) * d) + ((c * q) * c) * ((b * p) * b);
    assert(((a * q) * a) * ((d * p) * d) == (q * p) * ((a * a) * (d * d))) by (nonlinear_arith);
    assert(((c * q) * c) * ((b * p) * b) == (q * p) * ((c * c) * (b * b))) by (nonlinear_arith);
    assert((q * p) * ((a * a) * (d * d)) + (q * p) * ((c * c) * (b * b)) == (q * p) * s)
        by (nonlinear_arith)
        requires
            s == (a * a) * (d * d) + (c * c) * (b * b);
    assert(dn == (q * p) * s);
    assert((q * p) * s >= 1) by (nonlinear_arith)
        requires
            q >= 1,
            p >= 1,
            s >= 1;
    assert(frac_add(frac_mul(vx, x), frac_mul(vy, y)).n == dn);
    assert(frac_lt(frac_from_int(0), frac_add(frac_mul(vx, x), frac_mul(vy, y))));
}

} // verus!
