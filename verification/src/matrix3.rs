//! Exact 3x3 affine transform matrices.
//!
//! A matrix is held as nine 64-bit integer entries over one positive
//! common denominator. The 3x3 shape encodes a planar affine transform:
//! the upper 2x2 block is the linear part and the third row is the
//! translation, applied to homogeneous points `(x, y, 1)` as row vectors
//! (`v * M`, transforms compose left to right). The mathematical model is
//! [`Gm3`] over unbounded integers; every operation's contract pins its
//! result to the exact operation on [`Gm3`], and overflow of the 64-bit
//! representation is reported, never silently truncated.

use vstd::prelude::*;

use crate::dir::Dir;
use crate::error::NumericError;
use crate::matrix2::{lemma_den_mul_bound, lemma_i64_mul_bound};
use vstd::arithmetic::mul::{
    lemma_mul_is_associative, lemma_mul_is_commutative, lemma_mul_is_distributive_add,
    lemma_mul_is_distributive_add_other_way,
};
use crate::rat::{fits_num, frac_add, frac_eq, frac_fits, frac_mul, Frac, Rat};
use crate::vector2::Vector2;
use crate::vector3::Vector3;

verus! {

/// Mathematical model of a 3x3 matrix: integer entries over one common
/// (positive) denominator, all unbounded.
pub ghost struct Gm3 {
    pub e11: int,
    pub e12: int,
    pub e13: int,
    pub e21: int,
    pub e22: int,
    pub e23: int,
    pub e31: int,
    pub e32: int,
    pub e33: int,
    pub d: int,
}

pub open spec fn gm3_wf(m: Gm3) -> bool {
    m.d >= 1
}

/// The two matrices denote the same rational matrix (entrywise
/// cross-multiplication).
pub open spec fn gm3_eq(a: Gm3, b: Gm3) -> bool {
    &&& a.e11 * b.d == b.e11 * a.d
    &&& a.e12 * b.d == b.e12 * a.d
    &&& a.e13 * b.d == b.e13 * a.d
    &&& a.e21 * b.d == b.e21 * a.d
    &&& a.e22 * b.d == b.e22 * a.d
    &&& a.e23 * b.d == b.e23 * a.d
    &&& a.e31 * b.d == b.e31 * a.d
    &&& a.e32 * b.d == b.e32 * a.d
    &&& a.e33 * b.d == b.e33 * a.d
}

/// All entries and the denominator fit the 64-bit representation.
pub open spec fn gm3_fits(m: Gm3) -> bool {
    &&& fits_num(m.e11)
    &&& fits_num(m.e12)
    &&& fits_num(m.e13)
    &&& fits_num(m.e21)
    &&& fits_num(m.e22)
    &&& fits_num(m.e23)
    &&& fits_num(m.e31)
    &&& fits_num(m.e32)
    &&& fits_num(m.e33)
    &&& 1 <= m.d <= i64::MAX as int
}

pub open spec fn gm3_zero() -> Gm3 {
    Gm3 { e11: 0, e12: 0, e13: 0, e21: 0, e22: 0, e23: 0, e31: 0, e32: 0, e33: 0, d: 1 }
}

pub open spec fn gm3_unit() -> Gm3 {
    Gm3 { e11: 1, e12: 0, e13: 0, e21: 0, e22: 1, e23: 0, e31: 0, e32: 0, e33: 1, d: 1 }
}

/// The matrix product: integer block product, denominators multiplied.
pub open spec fn gm3_mul(a: Gm3, b: Gm3) -> Gm3 {
    Gm3 {
        e11: a.e11 * b.e11 + a.e12 * b.e21 + a.e13 * b.e31,
        e12: a.e11 * b.e12 + a.e12 * b.e22 + a.e13 * b.e32,
        e13: a.e11 * b.e13 + a.e12 * b.e23 + a.e13 * b.e33,
        e21: a.e21 * b.e11 + a.e22 * b.e21 + a.e23 * b.e31,
        e22: a.e21 * b.e12 + a.e22 * b.e22 + a.e23 * b.e32,
        e23: a.e21 * b.e13 + a.e22 * b.e23 + a.e23 * b.e33,
        e31: a.e31 * b.e11 + a.e32 * b.e21 + a.e33 * b.e31,
        e32: a.e31 * b.e12 + a.e32 * b.e22 + a.e33 * b.e32,
        e33: a.e31 * b.e13 + a.e32 * b.e23 + a.e33 * b.e33,
        d: a.d * b.d,
    }
}

pub open spec fn gm3_transpose(m: Gm3) -> Gm3 {
    Gm3 {
        e11: m.e11,
        e12: m.e21,
        e13: m.e31,
        e21: m.e12,
        e22: m.e22,
        e23: m.e32,
        e31: m.e13,
        e32: m.e23,
        e33: m.e33,
        d: m.d,
    }
}

/// The matrix scaled by the rational `k`.
pub open spec fn gm3_smul(m: Gm3, k: Frac) -> Gm3 {
    Gm3 {
        e11: m.e11 * k.n,
        e12: m.e12 * k.n,
        e13: m.e13 * k.n,
        e21: m.e21 * k.n,
        e22: m.e22 * k.n,
        e23: m.e23 * k.n,
        e31: m.e31 * k.n,
        e32: m.e32 * k.n,
        e33: m.e33 * k.n,
        d: m.d * k.d,
    }
}

/// The numerator of the determinant, by cofactor expansion along the
/// first row (over denominator `d^3`).
pub open spec fn gm3_det_n(m: Gm3) -> int {
    m.e11 * (m.e22 * m.e33 - m.e23 * m.e32) - m.e12 * (m.e21 * m.e33 - m.e23 * m.e31) + m.e13 * (
    m.e21 * m.e32 - m.e22 * m.e31)
}

/// The determinant as an exact rational.
pub open spec fn gm3_det(m: Gm3) -> Frac {
    Frac { n: gm3_det_n(m), d: (m.d * m.d) * m.d }
}

/// The three first-row minors, the determinant and the cubed
/// denominator all fit the representation, so the exact determinant is
/// computable.
pub open spec fn gm3_det_fits(m: Gm3) -> bool {
    &&& fits_num(m.e22 * m.e33 - m.e23 * m.e32)
    &&& fits_num(m.e21 * m.e33 - m.e23 * m.e31)
    &&& fits_num(m.e21 * m.e32 - m.e22 * m.e31)
    &&& fits_num(gm3_det_n(m))
    &&& 1 <= m.d * m.d <= i64::MAX as int
    &&& 1 <= (m.d * m.d) * m.d <= i64::MAX as int
}

/// The affine rotation block for the exact cosine/sine pair `(c, s)`:
/// a row vector `(x, y, 1)` is rotated counter-clockwise.
pub open spec fn gm3_rotate(c: Frac, s: Frac) -> Gm3 {
    Gm3 {
        e11: c.n * s.d,
        e12: s.n * c.d,
        e13: 0,
        e21: -(s.n * c.d),
        e22: c.n * s.d,
        e23: 0,
        e31: 0,
        e32: 0,
        e33: c.d * s.d,
        d: c.d * s.d,
    }
}

/// The translation by `(x, y)` (third-row translation terms).
pub open spec fn gm3_translate(x: Frac, y: Frac) -> Gm3 {
    Gm3 {
        e11: x.d * y.d,
        e12: 0,
        e13: 0,
        e21: 0,
        e22: x.d * y.d,
        e23: 0,
        e31: x.n * y.d,
        e32: y.n * x.d,
        e33: x.d * y.d,
        d: x.d * y.d,
    }
}

/// The conditional x-axis reflection: identity when `f` is false.
pub open spec fn gm3_flip_x(f: bool) -> Gm3 {
    if f {
        Gm3 { e11: -1, e12: 0, e13: 0, e21: 0, e22: 1, e23: 0, e31: 0, e32: 0, e33: 1, d: 1 }
    } else {
        gm3_unit()
    }
}

/// The conditional y-axis reflection: identity when `f` is false.
pub open spec fn gm3_flip_y(f: bool) -> Gm3 {
    if f {
        Gm3 { e11: 1, e12: 0, e13: 0, e21: 0, e22: -1, e23: 0, e31: 0, e32: 0, e33: 1, d: 1 }
    } else {
        gm3_unit()
    }
}

/// The anisotropic scaling `diag(sx, sy, 1)`.
pub open spec fn gm3_scale(sx: Frac, sy: Frac) -> Gm3 {
    Gm3 {
        e11: sx.n * sy.d,
        e12: 0,
        e13: 0,
        e21: 0,
        e22: sy.n * sx.d,
        e23: 0,
        e31: 0,
        e32: 0,
        e33: sx.d * sy.d,
        d: sx.d * sy.d,
    }
}

/// The x component of the homogeneous point `(x, y, 1)` transformed by
/// `m` as a row vector: the point is brought to the common denominator
/// `x.d * y.d` and the third (homogeneous) component multiplies the
/// translation row.
pub open spec fn gm3_apply_x(m: Gm3, x: Frac, y: Frac) -> Frac {
    Frac {
        n: (x.n * y.d) * m.e11 + (y.n * x.d) * m.e21 + (x.d * y.d) * m.e31,
        d: (x.d * y.d) * m.d,
    }
}

/// The y component of the transformed homogeneous point.
pub open spec fn gm3_apply_y(m: Gm3, x: Frac, y: Frac) -> Frac {
    Frac {
        n: (x.n * y.d) * m.e12 + (y.n * x.d) * m.e22 + (x.d * y.d) * m.e32,
        d: (x.d * y.d) * m.d,
    }
}

/// Multiplying a row vector by the matrix, componentwise over exact
/// rationals, stays within the representation.
pub open spec fn gm3_vec_mul_fits(x: Frac, y: Frac, z: Frac, m: Gm3) -> bool {
    let e11 = Frac { n: m.e11, d: m.d };
    let e12 = Frac { n: m.e12, d: m.d };
    let e13 = Frac { n: m.e13, d: m.d };
    let e21 = Frac { n: m.e21, d: m.d };
    let e22 = Frac { n: m.e22, d: m.d };
    let e23 = Frac { n: m.e23, d: m.d };
    let e31 = Frac { n: m.e31, d: m.d };
    let e32 = Frac { n: m.e32, d: m.d };
    let e33 = Frac { n: m.e33, d: m.d };
    &&& frac_fits(frac_mul(x, e11))
    &&& frac_fits(frac_mul(y, e21))
    &&& frac_fits(frac_mul(z, e31))
    &&& frac_fits(frac_add(frac_mul(x, e11), frac_mul(y, e21)))
    &&& frac_fits(frac_add(frac_add(frac_mul(x, e11), frac_mul(y, e21)), frac_mul(z, e31)))
    &&& frac_fits(frac_mul(x, e12))
    &&& frac_fits(frac_mul(y, e22))
    &&& frac_fits(frac_mul(z, e32))
    &&& frac_fits(frac_add(frac_mul(x, e12), frac_mul(y, e22)))
    &&& frac_fits(frac_add(frac_add(frac_mul(x, e12), frac_mul(y, e22)), frac_mul(z, e32)))
    &&& frac_fits(frac_mul(x, e13))
    &&& frac_fits(frac_mul(y, e23))
    &&& frac_fits(frac_mul(z, e33))
    &&& frac_fits(frac_add(frac_mul(x, e13), frac_mul(y, e23)))
    &&& frac_fits(frac_add(frac_add(frac_mul(x, e13), frac_mul(y, e23)), frac_mul(z, e33)))
}

/// The homogenization and one application stay within the
/// representation.
pub open spec fn gm3_apply_fits(m: Gm3, x: Frac, y: Frac) -> bool {
    &&& fits_num(x.n * y.d)
    &&& fits_num(y.n * x.d)
    &&& 1 <= x.d * y.d <= i64::MAX as int
    &&& frac_fits(gm3_apply_x(m, x, y))
    &&& frac_fits(gm3_apply_y(m, x, y))
}

/// An exact 3x3 matrix: integer entries `n11 .. n33` over the positive
/// common denominator `den`.
#[derive(Clone, Copy, Debug)]
pub struct Matrix3 {
    pub n11: i64,
    pub n12: i64,
    pub n13: i64,
    pub n21: i64,
    pub n22: i64,
    pub n23: i64,
    pub n31: i64,
    pub n32: i64,
    pub n33: i64,
    pub den: i64,
}

impl View for Matrix3 {
    type V = Gm3;

    open spec fn view(&self) -> Gm3 {
        Gm3 {
            e11: self.n11 as int,
            e12: self.n12 as int,
            e13: self.n13 as int,
            e21: self.n21 as int,
            e22: self.n22 as int,
            e23: self.n23 as int,
            e31: self.n31 as int,
            e32: self.n32 as int,
            e33: self.n33 as int,
            d: self.den as int,
        }
    }
}

/// The exact three-term dot product `a1*b1 + a2*b2 + a3*b3` in 128 bits;
/// an overflow of the 128-bit intermediate implies the exact value
/// cannot fit 64 bits either.
fn dot3(a1: i64, b1: i64, a2: i64, b2: i64, a3: i64, b3: i64) -> (r: Result<i128, NumericError>)
    requires
        a1 > i64::MIN,
        b1 > i64::MIN,
        a2 > i64::MIN,
        b2 > i64::MIN,
        a3 > i64::MIN,
        b3 > i64::MIN,
    ensures
        r matches Ok(v) ==> (v as int) == a1 * b1 + a2 * b2 + a3 * b3,
        r is Err ==> r == Err::<i128, NumericError>(NumericError::Overflow) && !fits_num(
            a1 * b1 + a2 * b2 + a3 * b3,
        ),
{
    proof {
        lemma_i64_mul_bound(a1 as int, b1 as int);
        lemma_i64_mul_bound(a2 as int, b2 as int);
        lemma_i64_mul_bound(a3 as int, b3 as int);
    }
    let p1: i128 = (a1 as i128) * (b1 as i128);
    let p2: i128 = (a2 as i128) * (b2 as i128);
    let p3: i128 = (a3 as i128) * (b3 as i128);
    let s1: i128 = p1 + p2;
    match s1.checked_add(p3) {
        Some(v) => Ok(v),
        None => Err(NumericError::Overflow),
    }
}

/// Packs checked 128-bit entries into a matrix, reporting overflow when
/// an entry or the denominator does not fit.
#[verifier::rlimit(30)]
fn pack3(
    e11: i128,
    e12: i128,
    e13: i128,
    e21: i128,
    e22: i128,
    e23: i128,
    e31: i128,
    e32: i128,
    e33: i128,
    d: i128,
) -> (r: Result<Matrix3, NumericError>)
    requires
        1 <= d,
    ensures
        fits_num(e11 as int) && fits_num(e12 as int) && fits_num(e13 as int) && fits_num(
            e21 as int,
        ) && fits_num(e22 as int) && fits_num(e23 as int) && fits_num(e31 as int) && fits_num(
            e32 as int,
        ) && fits_num(e33 as int) && d <= i64::MAX as i128 ==> (r matches Ok(m) && m.wf() && m@
            == Gm3 {
            e11: e11 as int,
            e12: e12 as int,
            e13: e13 as int,
            e21: e21 as int,
            e22: e22 as int,
            e23: e23 as int,
            e31: e31 as int,
            e32: e32 as int,
            e33: e33 as int,
            d: d as int,
        }),
        !(fits_num(e11 as int) && fits_num(e12 as int) && fits_num(e13 as int) && fits_num(
            e21 as int,
        ) && fits_num(e22 as int) && fits_num(e23 as int) && fits_num(e31 as int) && fits_num(
            e32 as int,
        ) && fits_num(e33 as int) && d <= i64::MAX as i128) ==> r == Err::<Matrix3, NumericError>(
            NumericError::Overflow,
        ),
{
    let lo: i128 = -(i64::MAX as i128);
    let hi: i128 = i64::MAX as i128;
    if lo <= e11 && e11 <= hi && lo <= e12 && e12 <= hi && lo <= e13 && e13 <= hi && lo <= e21
        && e21 <= hi && lo <= e22 && e22 <= hi && lo <= e23 && e23 <= hi && lo <= e31 && e31 <= hi
        && lo <= e32 && e32 <= hi && lo <= e33 && e33 <= hi && d <= hi {
        Ok(
            Matrix3 {
                n11: e11 as i64,
                n12: e12 as i64,
                n13: e13 as i64,
                n21: e21 as i64,
                n22: e22 as i64,
                n23: e23 as i64,
                n31: e31 as i64,
                n32: e32 as i64,
                n33: e33 as i64,
                den: d as i64,
            },
        )
    } else {
        Err(NumericError::Overflow)
    }
}

impl Matrix3 {
    /// Well-formed: positive denominator, and entries whose negations
    /// also fit.
    pub open spec fn wf(self) -> bool {
        &&& self.den >= 1
        &&& self.n11 > i64::MIN
        &&& self.n12 > i64::MIN
        &&& self.n13 > i64::MIN
        &&& self.n21 > i64::MIN
        &&& self.n22 > i64::MIN
        &&& self.n23 > i64::MIN
        &&& self.n31 > i64::MIN
        &&& self.n32 > i64::MIN
        &&& self.n33 > i64::MIN
    }

    /// A builder that starts at the identity and folds one elementary
    /// transform per call, in call order.
    pub fn builder() -> (r: Matrix3Build)
        ensures
            r.wf(),
            r.state matches Ok(m) && m@ == gm3_unit(),
    {
        Matrix3Build { state: Ok(Matrix3::unit()) }
    }

    /// The zero matrix.
    pub fn zero() -> (r: Matrix3)
        ensures
            r.wf(),
            r@ == gm3_zero(),
    {
        Matrix3 {
            n11: 0,
            n12: 0,
            n13: 0,
            n21: 0,
            n22: 0,
            n23: 0,
            n31: 0,
            n32: 0,
            n33: 0,
            den: 1,
        }
    }

    /// The identity matrix.
    pub fn unit() -> (r: Matrix3)
        ensures
            r.wf(),
            r@ == gm3_unit(),
    {
        Matrix3 {
            n11: 1,
            n12: 0,
            n13: 0,
            n21: 0,
            n22: 1,
            n23: 0,
            n31: 0,
            n32: 0,
            n33: 1,
            den: 1,
        }
    }

    /// The rotation matrix for the exact cosine/sine pair `rot`.
    pub fn rotate(rot: Dir) -> (r: Result<Matrix3, NumericError>)
        requires
            rot.wf(),
        ensures
            gm3_fits(gm3_rotate(rot.c@, rot.s@)) ==> (r matches Ok(m) && m.wf() && m@
                == gm3_rotate(rot.c@, rot.s@)),
            !gm3_fits(gm3_rotate(rot.c@, rot.s@)) ==> r == Err::<Matrix3, NumericError>(
                NumericError::Overflow,
            ),
    {
        proof {
            lemma_i64_mul_bound(rot.c.num as int, rot.s.den as int);
            lemma_i64_mul_bound(rot.s.num as int, rot.c.den as int);
            lemma_den_mul_bound(rot.c.den as int, rot.s.den as int);
        }
        let a: i128 = (rot.c.num as i128) * (rot.s.den as i128);
        let b: i128 = (rot.s.num as i128) * (rot.c.den as i128);
        let d: i128 = (rot.c.den as i128) * (rot.s.den as i128);
        pack3(a, b, 0, -b, a, 0, 0, 0, d, d)
    }

    /// The translation by the vector `v`.
    pub fn translate(v: Vector2) -> (r: Result<Matrix3, NumericError>)
        requires
            v.wf(),
        ensures
            gm3_fits(gm3_translate(v.x@, v.y@)) ==> (r matches Ok(m) && m.wf() && m@
                == gm3_translate(v.x@, v.y@)),
            !gm3_fits(gm3_translate(v.x@, v.y@)) ==> r == Err::<Matrix3, NumericError>(
                NumericError::Overflow,
            ),
    {
        proof {
            lemma_i64_mul_bound(v.x.num as int, v.y.den as int);
            lemma_i64_mul_bound(v.y.num as int, v.x.den as int);
            lemma_den_mul_bound(v.x.den as int, v.y.den as int);
        }
        let tx: i128 = (v.x.num as i128) * (v.y.den as i128);
        let ty: i128 = (v.y.num as i128) * (v.x.den as i128);
        let d: i128 = (v.x.den as i128) * (v.y.den as i128);
        pack3(d, 0, 0, 0, d, 0, tx, ty, d, d)
    }

    /// The transpose; always exact.
    pub fn transpose(self) -> (r: Matrix3)
        requires
            self.wf(),
        ensures
            r.wf(),
            r@ == gm3_transpose(self@),
    {
        Matrix3 {
            n11: self.n11,
            n12: self.n21,
            n13: self.n31,
            n21: self.n12,
            n22: self.n22,
            n23: self.n32,
            n31: self.n13,
            n32: self.n23,
            n33: self.n33,
            den: self.den,
        }
    }

    /// The conditional x-axis reflection; always exact.
    pub fn flip_x(f: bool) -> (r: Matrix3)
        ensures
            r.wf(),
            r@ == gm3_flip_x(f),
    {
        if f {
            Matrix3 {
                n11: -1,
                n12: 0,
                n13: 0,
                n21: 0,
                n22: 1,
                n23: 0,
                n31: 0,
                n32: 0,
                n33: 1,
                den: 1,
            }
        } else {
            Matrix3::unit()
        }
    }

    /// The conditional y-axis reflection; always exact.
    pub fn flip_y(f: bool) -> (r: Matrix3)
        ensures
            r.wf(),
            r@ == gm3_flip_y(f),
    {
        if f {
            Matrix3 {
                n11: 1,
                n12: 0,
                n13: 0,
                n21: 0,
                n22: -1,
                n23: 0,
                n31: 0,
                n32: 0,
                n33: 1,
                den: 1,
            }
        } else {
            Matrix3::unit()
        }
    }

    /// The anisotropic scaling `diag(sx, sy, 1)`.
    pub fn scale(sx: Rat, sy: Rat) -> (r: Result<Matrix3, NumericError>)
        requires
            sx.wf(),
            sy.wf(),
        ensures
            gm3_fits(gm3_scale(sx@, sy@)) ==> (r matches Ok(m) && m.wf() && m@ == gm3_scale(
                sx@,
                sy@,
            )),
            !gm3_fits(gm3_scale(sx@, sy@)) ==> r == Err::<Matrix3, NumericError>(
                NumericError::Overflow,
            ),
    {
        proof {
            lemma_i64_mul_bound(sx.num as int, sy.den as int);
            lemma_i64_mul_bound(sy.num as int, sx.den as int);
            lemma_den_mul_bound(sx.den as int, sy.den as int);
        }
        let a: i128 = (sx.num as i128) * (sy.den as i128);
        let b: i128 = (sy.num as i128) * (sx.den as i128);
        let d: i128 = (sx.den as i128) * (sy.den as i128);
        pack3(a, 0, 0, 0, b, 0, 0, 0, d, d)
    }

    /// The exact determinant, by cofactor expansion along the first row.
    pub fn determinant(&self) -> (r: Result<Rat, NumericError>)
        requires
            self.wf(),
        ensures
            r matches Ok(v) ==> v.wf() && v@ == gm3_det(self@),
            gm3_det_fits(self@) ==> r is Ok,
            r is Err ==> r == Err::<Rat, NumericError>(NumericError::Overflow),
    {
        proof {
            lemma_i64_mul_bound(self.n22 as int, self.n33 as int);
            lemma_i64_mul_bound(self.n23 as int, self.n32 as int);
            lemma_i64_mul_bound(self.n21 as int, self.n33 as int);
            lemma_i64_mul_bound(self.n23 as int, self.n31 as int);
            lemma_i64_mul_bound(self.n21 as int, self.n32 as int);
            lemma_i64_mul_bound(self.n22 as int, self.n31 as int);
            lemma_den_mul_bound(self.den as int, self.den as int);
        }
        let lo: i128 = -(i64::MAX as i128);
        let hi: i128 = i64::MAX as i128;
        let m1: i128 = (self.n22 as i128) * (self.n33 as i128) - (self.n23 as i128) * (self.n32
            as i128);
        let m2: i128 = (self.n21 as i128) * (self.n33 as i128) - (self.n23 as i128) * (self.n31
            as i128);
        let m3: i128 = (self.n21 as i128) * (self.n32 as i128) - (self.n22 as i128) * (self.n31
            as i128);
        if m1 < lo || m1 > hi || m2 < lo || m2 > hi || m3 < lo || m3 > hi {
            return Err(NumericError::Overflow);
        }
        proof {
            lemma_i64_mul_bound(self.n11 as int, m1 as int);
            lemma_i64_mul_bound(self.n12 as int, m2 as int);
            lemma_i64_mul_bound(self.n13 as int, m3 as int);
        }
        let t1: i128 = (self.n11 as i128) * m1;
        let t2: i128 = (self.n12 as i128) * m2;
        let t3: i128 = (self.n13 as i128) * m3;
        let s1: i128 = t1 - t2;
        let n: i128 = match s1.checked_add(t3) {
            Some(v) => v,
            None => {
                return Err(NumericError::Overflow);
            },
        };
        let d2: i128 = (self.den as i128) * (self.den as i128);
        if d2 > hi {
            return Err(NumericError::Overflow);
        }
        proof {
            lemma_den_mul_bound(d2 as int, self.den as int);
        }
        let d3: i128 = d2 * (self.den as i128);
        if n < lo || n > hi || d3 > hi {
            return Err(NumericError::Overflow);
        }
        Ok(Rat { num: n as i64, den: d3 as i64 })
    }

    /// The exact scalar multiple.
    pub fn smul(self, k: Rat) -> (r: Result<Matrix3, NumericError>)
        requires
            self.wf(),
            k.wf(),
        ensures
            gm3_fits(gm3_smul(self@, k@)) ==> (r matches Ok(m) && m.wf() && m@ == gm3_smul(
                self@,
                k@,
            )),
            !gm3_fits(gm3_smul(self@, k@)) ==> r == Err::<Matrix3, NumericError>(
                NumericError::Overflow,
            ),
    {
        proof {
            lemma_i64_mul_bound(self.n11 as int, k.num as int);
            lemma_i64_mul_bound(self.n12 as int, k.num as int);
            lemma_i64_mul_bound(self.n13 as int, k.num as int);
            lemma_i64_mul_bound(self.n21 as int, k.num as int);
            lemma_i64_mul_bound(self.n22 as int, k.num as int);
            lemma_i64_mul_bound(self.n23 as int, k.num as int);
            lemma_i64_mul_bound(self.n31 as int, k.num as int);
            lemma_i64_mul_bound(self.n32 as int, k.num as int);
            lemma_i64_mul_bound(self.n33 as int, k.num as int);
            lemma_den_mul_bound(self.den as int, k.den as int);
        }
        let kn: i128 = k.num as i128;
        pack3(
            (self.n11 as i128) * kn,
            (self.n12 as i128) * kn,
            (self.n13 as i128) * kn,
            (self.n21 as i128) * kn,
            (self.n22 as i128) * kn,
            (self.n23 as i128) * kn,
            (self.n31 as i128) * kn,
            (self.n32 as i128) * kn,
            (self.n33 as i128) * kn,
            (self.den as i128) * (k.den as i128),
        )
    }

    /// The exact matrix product.
    pub fn mul(self, rhs: Matrix3) -> (r: Result<Matrix3, NumericError>)
        requires
            self.wf(),
            rhs.wf(),
        ensures
            gm3_fits(gm3_mul(self@, rhs@)) ==> (r matches Ok(m) && m.wf() && m@ == gm3_mul(
                self@,
                rhs@,
            )),
            !gm3_fits(gm3_mul(self@, rhs@)) ==> r == Err::<Matrix3, NumericError>(
                NumericError::Overflow,
            ),
    {
        proof {
            lemma_den_mul_bound(self.den as int, rhs.den as int);
        }
        let e11 = dot3(self.n11, rhs.n11, self.n12, rhs.n21, self.n13, rhs.n31)?;
        let e12 = dot3(self.n11, rhs.n12, self.n12, rhs.n22, self.n13, rhs.n32)?;
        let e13 = dot3(self.n11, rhs.n13, self.n12, rhs.n23, self.n13, rhs.n33)?;
        let e21 = dot3(self.n21, rhs.n11, self.n22, rhs.n21, self.n23, rhs.n31)?;
        let e22 = dot3(self.n21, rhs.n12, self.n22, rhs.n22, self.n23, rhs.n32)?;
        let e23 = dot3(self.n21, rhs.n13, self.n22, rhs.n23, self.n23, rhs.n33)?;
        let e31 = dot3(self.n31, rhs.n11, self.n32, rhs.n21, self.n33, rhs.n31)?;
        let e32 = dot3(self.n31, rhs.n12, self.n32, rhs.n22, self.n33, rhs.n32)?;
        let e33 = dot3(self.n31, rhs.n13, self.n32, rhs.n23, self.n33, rhs.n33)?;
        let d: i128 = (self.den as i128) * (rhs.den as i128);
        pack3(e11, e12, e13, e21, e22, e23, e31, e32, e33, d)
    }

    /// Exact value equality of the two matrices (independent of the
    /// representations chosen).
    pub fn eq_mat(&self, rhs: &Matrix3) -> (r: bool)
        requires
            self.wf(),
            rhs.wf(),
        ensures
            r == gm3_eq(self@, rhs@),
    {
        proof {
            lemma_i64_mul_bound(self.n11 as int, rhs.den as int);
            lemma_i64_mul_bound(rhs.n11 as int, self.den as int);
            lemma_i64_mul_bound(self.n12 as int, rhs.den as int);
            lemma_i64_mul_bound(rhs.n12 as int, self.den as int);
            lemma_i64_mul_bound(self.n13 as int, rhs.den as int);
            lemma_i64_mul_bound(rhs.n13 as int, self.den as int);
            lemma_i64_mul_bound(self.n21 as int, rhs.den as int);
            lemma_i64_mul_bound(rhs.n21 as int, self.den as int);
            lemma_i64_mul_bound(self.n22 as int, rhs.den as int);
            lemma_i64_mul_bound(rhs.n22 as int, self.den as int);
            lemma_i64_mul_bound(self.n23 as int, rhs.den as int);
            lemma_i64_mul_bound(rhs.n23 as int, self.den as int);
            lemma_i64_mul_bound(self.n31 as int, rhs.den as int);
            lemma_i64_mul_bound(rhs.n31 as int, self.den as int);
            lemma_i64_mul_bound(self.n32 as int, rhs.den as int);
            lemma_i64_mul_bound(rhs.n32 as int, self.den as int);
            lemma_i64_mul_bound(self.n33 as int, rhs.den as int);
            lemma_i64_mul_bound(rhs.n33 as int, self.den as int);
        }
        let sd: i128 = self.den as i128;
        let rd: i128 = rhs.den as i128;
        (self.n11 as i128) * rd == (rhs.n11 as i128) * sd && (self.n12 as i128) * rd == (rhs.n12
            as i128) * sd && (self.n13 as i128) * rd == (rhs.n13 as i128) * sd && (self.n21
            as i128) * rd == (rhs.n21 as i128) * sd && (self.n22 as i128) * rd == (rhs.n22
            as i128) * sd && (self.n23 as i128) * rd == (rhs.n23 as i128) * sd && (self.n31
            as i128) * rd == (rhs.n31 as i128) * sd && (self.n32 as i128) * rd == (rhs.n32
            as i128) * sd && (self.n33 as i128) * rd == (rhs.n33 as i128) * sd
    }

    /// The homogeneous point `(x, y, 1)` transformed by the matrix as a
    /// row vector: the exact result, or `Overflow`.
    pub fn apply_point(&self, x: Rat, y: Rat) -> (r: Result<(Rat, Rat), NumericError>)
        requires
            self.wf(),
            x.wf(),
            y.wf(),
        ensures
            r matches Ok(p) ==> p.0.wf() && p.1.wf() && p.0@ == gm3_apply_x(self@, x@, y@) && p.1@
                == gm3_apply_y(self@, x@, y@),
            gm3_apply_fits(self@, x@, y@) ==> r is Ok,
            r is Err ==> r == Err::<(Rat, Rat), NumericError>(NumericError::Overflow),
    {
        proof {
            lemma_i64_mul_bound(x.num as int, y.den as int);
            lemma_i64_mul_bound(y.num as int, x.den as int);
            lemma_den_mul_bound(x.den as int, y.den as int);
        }
        let lo: i128 = -(i64::MAX as i128);
        let hi: i128 = i64::MAX as i128;
        let hx: i128 = (x.num as i128) * (y.den as i128);
        let hy: i128 = (y.num as i128) * (x.den as i128);
        let hd: i128 = (x.den as i128) * (y.den as i128);
        if hx < lo || hx > hi || hy < lo || hy > hi || hd > hi {
            return Err(NumericError::Overflow);
        }
        let hx64: i64 = hx as i64;
        let hy64: i64 = hy as i64;
        let hd64: i64 = hd as i64;
        let nx = dot3(hx64, self.n11, hy64, self.n21, hd64, self.n31)?;
        let ny = dot3(hx64, self.n12, hy64, self.n22, hd64, self.n32)?;
        proof {
            lemma_den_mul_bound(hd as int, self.den as int);
        }
        let d: i128 = hd * (self.den as i128);
        if nx < lo || nx > hi || ny < lo || ny > hi || d > hi {
            return Err(NumericError::Overflow);
        }
        Ok((Rat { num: nx as i64, den: d as i64 }, Rat { num: ny as i64, den: d as i64 }))
    }
}

impl Vector3 {
    /// The row vector multiplied by the matrix: `v * M`, componentwise
    /// over exact rationals.
    pub fn mul_mat3(self, m: &Matrix3) -> (r: Result<Vector3, NumericError>)
        requires
            self.wf(),
            m.wf(),
        ensures
            r matches Ok(w) ==> w.wf() && w.x@ == frac_add(
                frac_add(
                    frac_mul(self.x@, Frac { n: m@.e11, d: m@.d }),
                    frac_mul(self.y@, Frac { n: m@.e21, d: m@.d }),
                ),
                frac_mul(self.z@, Frac { n: m@.e31, d: m@.d }),
            ) && w.y@ == frac_add(
                frac_add(
                    frac_mul(self.x@, Frac { n: m@.e12, d: m@.d }),
                    frac_mul(self.y@, Frac { n: m@.e22, d: m@.d }),
                ),
                frac_mul(self.z@, Frac { n: m@.e32, d: m@.d }),
            ) && w.z@ == frac_add(
                frac_add(
                    frac_mul(self.x@, Frac { n: m@.e13, d: m@.d }),
                    frac_mul(self.y@, Frac { n: m@.e23, d: m@.d }),
                ),
                frac_mul(self.z@, Frac { n: m@.e33, d: m@.d }),
            ),
            gm3_vec_mul_fits(self.x@, self.y@, self.z@, m@) ==> r is Ok,
            r is Err ==> r == Err::<Vector3, NumericError>(NumericError::Overflow),
    {
        let c11 = Rat { num: m.n11, den: m.den };
        let c21 = Rat { num: m.n21, den: m.den };
        let c31 = Rat { num: m.n31, den: m.den };
        let c12 = Rat { num: m.n12, den: m.den };
        let c22 = Rat { num: m.n22, den: m.den };
        let c32 = Rat { num: m.n32, den: m.den };
        let c13 = Rat { num: m.n13, den: m.den };
        let c23 = Rat { num: m.n23, den: m.den };
        let c33 = Rat { num: m.n33, den: m.den };
        let x = self.x.mul(c11)?.add(self.y.mul(c21)?)?.add(self.z.mul(c31)?)?;
        let y = self.x.mul(c12)?.add(self.y.mul(c22)?)?.add(self.z.mul(c32)?)?;
        let z = self.x.mul(c13)?.add(self.y.mul(c23)?)?.add(self.z.mul(c33)?)?;
        Ok(Vector3 { x, y, z })
    }
}

/// A fluent accumulator for composing elementary affine transforms:
/// starts at the identity and folds one transform per call, in call
/// order; a homogeneous row vector multiplied by the built matrix
/// undergoes the transforms in that same order. A failure (overflow) in
/// any step is remembered and returned by `build`.
pub struct Matrix3Build {
    pub state: Result<Matrix3, NumericError>,
}

impl Matrix3Build {
    pub open spec fn wf(self) -> bool {
        match self.state {
            Ok(m) => m.wf(),
            Err(_) => true,
        }
    }

    /// Folds the matrix `e` into the accumulated state (on the right).
    fn step(self, e: Result<Matrix3, NumericError>) -> (r: Matrix3Build)
        requires
            self.wf(),
            e matches Ok(m) ==> m.wf(),
        ensures
            r.wf(),
            self.state matches Ok(m) ==> (e matches Ok(em) ==> (gm3_fits(gm3_mul(m@, em@)) ==> (
            r.state matches Ok(m2) && m2@ == gm3_mul(m@, em@)))),
            self.state matches Ok(m) ==> (e matches Ok(em) ==> (!gm3_fits(gm3_mul(m@, em@))
                ==> r.state == Err::<Matrix3, NumericError>(NumericError::Overflow))),
            self.state is Ok ==> (e matches Err(er) ==> r.state == Err::<Matrix3, NumericError>(
                er,
            )),
            self.state is Err ==> r.state == self.state,
    {
        match self.state {
            Ok(m) => match e {
                Ok(em) => Matrix3Build { state: m.mul(em) },
                Err(er) => Matrix3Build { state: Err(er) },
            },
            Err(er) => Matrix3Build { state: Err(er) },
        }
    }

    /// Folds a rotation by the exact cosine/sine pair `rot`.
    pub fn rotate(self, rot: Dir) -> (r: Matrix3Build)
        requires
            self.wf(),
            rot.wf(),
        ensures
            r.wf(),
            self.state matches Ok(m) ==> (gm3_fits(gm3_rotate(rot.c@, rot.s@)) && gm3_fits(
                gm3_mul(m@, gm3_rotate(rot.c@, rot.s@)),
            ) ==> (r.state matches Ok(m2) && m2@ == gm3_mul(m@, gm3_rotate(rot.c@, rot.s@)))),
            self.state matches Ok(m) ==> (r.state matches Ok(m2) ==> m2@ == gm3_mul(m@, gm3_rotate(rot.c@, rot.s@))),
            self.state is Err ==> r.state == self.state,
            r.state is Err ==> self.state is Err || r.state == Err::<Matrix3, NumericError>(
                NumericError::Overflow,
            ),
    {
        self.step(Matrix3::rotate(rot))
    }

    /// Folds a translation by the vector `v`.
    pub fn translate(self, v: Vector2) -> (r: Matrix3Build)
        requires
            self.wf(),
            v.wf(),
        ensures
            r.wf(),
            self.state matches Ok(m) ==> (gm3_fits(gm3_translate(v.x@, v.y@)) && gm3_fits(
                gm3_mul(m@, gm3_translate(v.x@, v.y@)),
            ) ==> (r.state matches Ok(m2) && m2@ == gm3_mul(m@, gm3_translate(v.x@, v.y@)))),
            self.state matches Ok(m) ==> (r.state matches Ok(m2) ==> m2@ == gm3_mul(m@, gm3_translate(v.x@, v.y@))),
            self.state is Err ==> r.state == self.state,
            r.state is Err ==> self.state is Err || r.state == Err::<Matrix3, NumericError>(
                NumericError::Overflow,
            ),
    {
        self.step(Matrix3::translate(v))
    }

    /// Folds a conditional x-axis reflection.
    pub fn flip_x(self, f: bool) -> (r: Matrix3Build)
        requires
            self.wf(),
        ensures
            r.wf(),
            self.state matches Ok(m) ==> (gm3_fits(gm3_mul(m@, gm3_flip_x(f))) ==> (r.state
                matches Ok(m2) && m2@ == gm3_mul(m@, gm3_flip_x(f)))),
            self.state matches Ok(m) ==> (r.state matches Ok(m2) ==> m2@ == gm3_mul(m@, gm3_flip_x(f))),
            self.state is Err ==> r.state == self.state,
            r.state is Err ==> self.state is Err || r.state == Err::<Matrix3, NumericError>(
                NumericError::Overflow,
            ),
    {
        self.step(Ok(Matrix3::flip_x(f)))
    }

    /// Folds a conditional y-axis reflection.
    pub fn flip_y(self, f: bool) -> (r: Matrix3Build)
        requires
            self.wf(),
        ensures
            r.wf(),
            self.state matches Ok(m) ==> (gm3_fits(gm3_mul(m@, gm3_flip_y(f))) ==> (r.state
                matches Ok(m2) && m2@ == gm3_mul(m@, gm3_flip_y(f)))),
            self.state matches Ok(m) ==> (r.state matches Ok(m2) ==> m2@ == gm3_mul(m@, gm3_flip_y(f))),
            self.state is Err ==> r.state == self.state,
            r.state is Err ==> self.state is Err || r.state == Err::<Matrix3, NumericError>(
                NumericError::Overflow,
            ),
    {
        self.step(Ok(Matrix3::flip_y(f)))
    }

    /// Folds an anisotropic scaling `diag(sx, sy, 1)`.
    pub fn scale(self, sx: Rat, sy: Rat) -> (r: Matrix3Build)
        requires
            self.wf(),
            sx.wf(),
            sy.wf(),
        ensures
            r.wf(),
            self.state matches Ok(m) ==> (gm3_fits(gm3_scale(sx@, sy@)) && gm3_fits(
                gm3_mul(m@, gm3_scale(sx@, sy@)),
            ) ==> (r.state matches Ok(m2) && m2@ == gm3_mul(m@, gm3_scale(sx@, sy@)))),
            self.state matches Ok(m) ==> (r.state matches Ok(m2) ==> m2@ == gm3_mul(m@, gm3_scale(sx@, sy@))),
            self.state is Err ==> r.state == self.state,
            r.state is Err ==> self.state is Err || r.state == Err::<Matrix3, NumericError>(
                NumericError::Overflow,
            ),
    {
        self.step(Matrix3::scale(sx, sy))
    }

    /// The accumulated matrix, or the first failure.
    pub fn build(self) -> (r: Result<Matrix3, NumericError>)
        requires
            self.wf(),
        ensures
            r == self.state,
            r matches Ok(m) ==> m.wf(),
    {
        self.state
    }
}

/// The identity matrix is the multiplicative identity: folding it
/// changes nothing, exactly.
pub proof fn lemma_m3_unit_mul(m: Gm3)
    ensures
        gm3_mul(m, gm3_unit()) == m,
        gm3_mul(gm3_unit(), m) == m,
{
    let pr = gm3_mul(m, gm3_unit());
    let pl = gm3_mul(gm3_unit(), m);
    assert(pr.e11 == m.e11 && pr.e12 == m.e12 && pr.e13 == m.e13 && pr.e21 == m.e21 && pr.e22
        == m.e22 && pr.e23 == m.e23 && pr.e31 == m.e31 && pr.e32 == m.e32 && pr.e33 == m.e33
        && pr.d == m.d);
    assert(pl.e11 == m.e11 && pl.e12 == m.e12 && pl.e13 == m.e13 && pl.e21 == m.e21 && pl.e22
        == m.e22 && pl.e23 == m.e23 && pl.e31 == m.e31 && pl.e32 == m.e32 && pl.e33 == m.e33
        && pl.d == m.d);
}

/// An affine matrix: the third column is `(0, 0, d)`, so a transformed
/// homogeneous point keeps homogeneous coordinate one.
pub open spec fn gm3_affine(m: Gm3) -> bool {
    m.e13 == 0 && m.e23 == 0 && m.e33 == m.d
}

/// The product of affine matrices is affine.
pub proof fn lemma_mul_affine(a: Gm3, b: Gm3)
    requires
        gm3_affine(a),
        gm3_affine(b),
    ensures
        gm3_affine(gm3_mul(a, b)),
{
    let p = gm3_mul(a, b);
    assert(p.e13 == a.e11 * 0 + a.e12 * 0 + 0 * b.e33);
    assert(p.e23 == a.e21 * 0 + a.e22 * 0 + 0 * b.e33);
    assert(p.e33 == a.e31 * 0 + a.e32 * 0 + a.e33 * b.e33);
    assert(a.e33 * b.e33 == a.d * b.d);
}

/// Distributing a factor over a three-term dot product, from the right.
proof fn lemma_mul_distrib_dot(x: int, y: int, z: int, p: int, q: int, r: int, k: int)
    ensures
        (x * p + y * q + z * r) * k == x * (p * k) + y * (q * k) + z * (r * k),
{
    lemma_mul_is_distributive_add_other_way(k, x * p + y * q, z * r);
    lemma_mul_is_distributive_add_other_way(k, x * p, y * q);
    lemma_mul_is_associative(x, p, k);
    lemma_mul_is_associative(y, q, k);
    lemma_mul_is_associative(z, r, k);
}

/// Distributing a factor over a three-term sum, from the left.
proof fn lemma_mul_distrib3(k: int, a: int, b: int, c: int)
    ensures
        k * (a + b + c) == k * a + k * b + k * c,
{
    lemma_mul_is_distributive_add(k, a + b, c);
    lemma_mul_is_distributive_add(k, a, b);
}

/// Row-vector times matrix, then dotted with a column, equals the vector
/// dotted with the matrix-times-column: the scalar heart of
/// associativity.
proof fn lemma_dot_assoc(vx: int, vy: int, vz: int, a: Gm3, b1: int, b2: int, b3: int)
    ensures
        (vx * a.e11 + vy * a.e21 + vz * a.e31) * b1 + (vx * a.e12 + vy * a.e22 + vz * a.e32) * b2
            + (vx * a.e13 + vy * a.e23 + vz * a.e33) * b3 == vx * (a.e11 * b1 + a.e12 * b2 + a.e13
            * b3) + vy * (a.e21 * b1 + a.e22 * b2 + a.e23 * b3) + vz * (a.e31 * b1 + a.e32 * b2
            + a.e33 * b3),
{
    lemma_mul_distrib_dot(vx, vy, vz, a.e11, a.e21, a.e31, b1);
    lemma_mul_distrib_dot(vx, vy, vz, a.e12, a.e22, a.e32, b2);
    lemma_mul_distrib_dot(vx, vy, vz, a.e13, a.e23, a.e33, b3);
    lemma_mul_distrib3(vx, a.e11 * b1, a.e12 * b2, a.e13 * b3);
    lemma_mul_distrib3(vy, a.e21 * b1, a.e22 * b2, a.e23 * b3);
    lemma_mul_distrib3(vz, a.e31 * b1, a.e32 * b2, a.e33 * b3);
}

/// Both cross-multiplied sides of the associativity equation reduce to
/// the same monomial once the intermediate denominator is expanded.
proof fn lemma_cross_denom(n: int, h: int, p: int, q: int, u: int)
    by (nonlinear_arith)
    requires
        u == h * p,
    ensures
        (u * n) * (h * (p * q)) == n * ((u * u) * q),
{
}

/// Applying `a` and then `b` to a point gives the same point as applying
/// the single product `a * b`: transform composition is associative,
/// exactly.
pub proof fn lemma_apply_assoc(x: Frac, y: Frac, a: Gm3, b: Gm3)
    requires
        x.d >= 1,
        y.d >= 1,
        gm3_wf(a),
        gm3_wf(b),
        gm3_affine(a),
    ensures
        frac_eq(
            gm3_apply_x(b, gm3_apply_x(a, x, y), gm3_apply_y(a, x, y)),
            gm3_apply_x(gm3_mul(a, b), x, y),
        ),
        frac_eq(
            gm3_apply_y(b, gm3_apply_x(a, x, y), gm3_apply_y(a, x, y)),
            gm3_apply_y(gm3_mul(a, b), x, y),
        ),
{
    let hx: int = x.n * y.d;
    let hy: int = y.n * x.d;
    let hd: int = x.d * y.d;
    let n1x: int = hx * a.e11 + hy * a.e21 + hd * a.e31;
    let n1y: int = hx * a.e12 + hy * a.e22 + hd * a.e32;
    let dd1: int = hd * a.d;
    assert(gm3_apply_x(a, x, y) == Frac { n: n1x, d: dd1 });
    assert(gm3_apply_y(a, x, y) == Frac { n: n1y, d: dd1 });
    // The homogeneous coordinate after `a` equals the new denominator,
    // because `a` is affine.
    assert(hx * a.e13 + hy * a.e23 + hd * a.e33 == dd1);
    // Left side, x component.
    let n2x: int = (n1x * dd1) * b.e11 + (n1y * dd1) * b.e21 + (dd1 * dd1) * b.e31;
    let n2y: int = (n1x * dd1) * b.e12 + (n1y * dd1) * b.e22 + (dd1 * dd1) * b.e32;
    let dd2: int = (dd1 * dd1) * b.d;
    assert(gm3_apply_x(b, gm3_apply_x(a, x, y), gm3_apply_y(a, x, y)) == Frac { n: n2x, d: dd2 });
    assert(gm3_apply_y(b, gm3_apply_x(a, x, y), gm3_apply_y(a, x, y)) == Frac { n: n2y, d: dd2 });
    // Right side.
    let p = gm3_mul(a, b);
    let n3x: int = hx * p.e11 + hy * p.e21 + hd * p.e31;
    let n3y: int = hx * p.e12 + hy * p.e22 + hd * p.e32;
    let dd3: int = hd * p.d;
    assert(gm3_apply_x(p, x, y) == Frac { n: n3x, d: dd3 });
    assert(gm3_apply_y(p, x, y) == Frac { n: n3y, d: dd3 });
    // The scalar associativity, one column of `b` at a time.
    lemma_dot_assoc(hx, hy, hd, a, b.e11, b.e21, b.e31);
    lemma_dot_assoc(hx, hy, hd, a, b.e12, b.e22, b.e32);
    assert(n1x * b.e11 + n1y * b.e21 + dd1 * b.e31 == n3x);
    assert(n1x * b.e12 + n1y * b.e22 + dd1 * b.e32 == n3y);
    // Factor the common denominator out of the left numerator.
    lemma_mul_distrib3(dd1, n1x * b.e11, n1y * b.e21, dd1 * b.e31);
    lemma_mul_distrib3(dd1, n1x * b.e12, n1y * b.e22, dd1 * b.e32);
    lemma_mul_is_commutative(n1x, dd1);
    lemma_mul_is_commutative(n1y, dd1);
    lemma_mul_is_associative(dd1, n1x, b.e11);
    lemma_mul_is_associative(dd1, n1y, b.e21);
    lemma_mul_is_associative(dd1, dd1, b.e31);
    lemma_mul_is_associative(dd1, n1x, b.e12);
    lemma_mul_is_associative(dd1, n1y, b.e22);
    lemma_mul_is_associative(dd1, dd1, b.e32);
    assert(n2x == dd1 * (n1x * b.e11 + n1y * b.e21 + dd1 * b.e31));
    assert(n2y == dd1 * (n1x * b.e12 + n1y * b.e22 + dd1 * b.e32));
    // Cross-multiplied equality of the two sides.
    lemma_cross_denom(n3x, hd, a.d, b.d, dd1);
    lemma_cross_denom(n3y, hd, a.d, b.d, dd1);
    assert(n2x * dd3 == n3x * dd2);
    assert(n2y * dd3 == n3y * dd2);
}

/// Folding a translation into an affine matrix on the right moves the
/// applied point by exactly that translation.
pub proof fn lemma_apply_translate(l: Gm3, tx: Frac, ty: Frac, x: Frac, y: Frac)
    requires
        x.d >= 1,
        y.d >= 1,
        tx.d >= 1,
        ty.d >= 1,
        gm3_wf(l),
        gm3_affine(l),
    ensures
        frac_eq(
            gm3_apply_x(gm3_mul(l, gm3_translate(tx, ty)), x, y),
            frac_add(gm3_apply_x(l, x, y), tx),
        ),
        frac_eq(
            gm3_apply_y(gm3_mul(l, gm3_translate(tx, ty)), x, y),
            frac_add(gm3_apply_y(l, x, y), ty),
        ),
{
    let hx: int = x.n * y.d;
    let hy: int = y.n * x.d;
    let hd: int = x.d * y.d;
    let dt: int = tx.d * ty.d;
    let p = gm3_mul(l, gm3_translate(tx, ty));
    lemma_zero_mul(l.e13, tx.n * ty.d);
    lemma_zero_mul(l.e23, tx.n * ty.d);
    lemma_zero_mul(l.e13, ty.n * tx.d);
    lemma_zero_mul(l.e23, ty.n * tx.d);
    assert(p.e11 == l.e11 * (tx.d * ty.d) + l.e12 * 0 + l.e13 * (tx.n * ty.d));
    assert(p.e21 == l.e21 * (tx.d * ty.d) + l.e22 * 0 + l.e23 * (tx.n * ty.d));
    assert(p.e31 == l.e31 * (tx.d * ty.d) + l.e32 * 0 + l.e33 * (tx.n * ty.d));
    assert(p.e12 == l.e11 * 0 + l.e12 * (tx.d * ty.d) + l.e13 * (ty.n * tx.d));
    assert(p.e22 == l.e21 * 0 + l.e22 * (tx.d * ty.d) + l.e23 * (ty.n * tx.d));
    assert(p.e32 == l.e31 * 0 + l.e32 * (tx.d * ty.d) + l.e33 * (ty.n * tx.d));
    assert(p.e11 == l.e11 * dt);
    assert(p.e21 == l.e21 * dt);
    assert(p.e31 == l.e31 * dt + l.d * (tx.n * ty.d));
    assert(p.e12 == l.e12 * dt);
    assert(p.e22 == l.e22 * dt);
    assert(p.e32 == l.e32 * dt + l.d * (ty.n * tx.d));
    assert(p.d == l.d * dt);
    let nl: int = hx * l.e11 + hy * l.e21 + hd * l.e31;
    let nly: int = hx * l.e12 + hy * l.e22 + hd * l.e32;
    // Numerators of the left sides, expanded and refactored.
    lemma_mul_distrib3(dt, hx * l.e11, hy * l.e21, hd * l.e31);
    lemma_mul_distrib3(dt, hx * l.e12, hy * l.e22, hd * l.e32);
    assert(hx * (l.e11 * dt) == dt * (hx * l.e11)) by (nonlinear_arith);
    assert(hy * (l.e21 * dt) == dt * (hy * l.e21)) by (nonlinear_arith);
    assert(hd * (l.e31 * dt + l.d * (tx.n * ty.d)) == dt * (hd * l.e31) + hd * (l.d * (tx.n
        * ty.d))) by (nonlinear_arith);
    assert(hx * (l.e12 * dt) == dt * (hx * l.e12)) by (nonlinear_arith);
    assert(hy * (l.e22 * dt) == dt * (hy * l.e22)) by (nonlinear_arith);
    assert(hd * (l.e32 * dt + l.d * (ty.n * tx.d)) == dt * (hd * l.e32) + hd * (l.d * (ty.n
        * tx.d))) by (nonlinear_arith);
    assert(gm3_apply_x(p, x, y).n == dt * nl + hd * (l.d * (tx.n * ty.d)));
    assert(gm3_apply_x(p, x, y).d == hd * (l.d * dt));
    assert(gm3_apply_y(p, x, y).n == dt * nly + hd * (l.d * (ty.n * tx.d)));
    // Cross-multiplied equality against the right sides.
    lemma_translate_cross(nl, hd, l.d, tx.n, tx.d, ty.d, dt);
    assert(frac_eq(gm3_apply_x(p, x, y), frac_add(gm3_apply_x(l, x, y), tx)));
    lemma_mul_is_commutative(tx.d, ty.d);
    lemma_translate_cross(nly, hd, l.d, ty.n, ty.d, tx.d, dt);
    assert(frac_eq(gm3_apply_y(p, x, y), frac_add(gm3_apply_y(l, x, y), ty)));
}

/// A product with a zero factor vanishes.
proof fn lemma_zero_mul(a: int, b: int)
    by (nonlinear_arith)
    requires
        a == 0,
    ensures
        a * b == 0,
        b * a == 0,
{
}

/// The cross-multiplied identity behind folding a translation: both
/// sides of the fraction equality reduce to the same polynomial.
#[verifier::rlimit(50)]
proof fn lemma_translate_cross(n: int, h: int, w: int, an: int, ad: int, bd: int, dt: int)
    requires
        dt == ad * bd,
    ensures
        (dt * n + h * (w * (an * bd))) * ((h * w) * ad) == (n * ad + an * (h * w)) * (h * (w
            * dt)),
{
    lemma_mul_is_distributive_add_other_way((h * w) * ad, dt * n, h * (w * (an * bd)));
    lemma_mul_is_distributive_add_other_way(h * (w * dt), n * ad, an * (h * w));
    assert((dt * n) * ((h * w) * ad) == (n * ad) * (h * (w * dt))) by (nonlinear_arith)
        requires
            dt == ad * bd;
    let hw: int = h * w;
    assert(h * (w * (an * bd)) == hw * (an * bd)) by (nonlinear_arith)
        requires
            hw == h * w;
    assert(h * (w * dt) == hw * (ad * bd)) by (nonlinear_arith)
        requires
            hw == h * w,
            dt == ad * bd;
    assert((hw * (an * bd)) * (hw * ad) == (an * hw) * (hw * (ad * bd))) by (nonlinear_arith);
    assert((h * (w * (an * bd))) * ((h * w) * ad) == (an * (h * w)) * (h * (w * dt)));
}

/// Applying a matrix to equal points gives equal points.
pub proof fn lemma_apply_congr(m: Gm3, x: Frac, y: Frac, x2: Frac, y2: Frac)
    requires
        x.d >= 1,
        y.d >= 1,
        x2.d >= 1,
        y2.d >= 1,
        gm3_wf(m),
        frac_eq(x, x2),
        frac_eq(y, y2),
    ensures
        frac_eq(gm3_apply_x(m, x, y), gm3_apply_x(m, x2, y2)),
        frac_eq(gm3_apply_y(m, x, y), gm3_apply_y(m, x2, y2)),
{
    let hx: int = x.n * y.d;
    let hy: int = y.n * x.d;
    let hd: int = x.d * y.d;
    let kx: int = x2.n * y2.d;
    let ky: int = y2.n * x2.d;
    let kd: int = x2.d * y2.d;
    // Expand both cross products termwise.
    lemma_mul_is_distributive_add_other_way(kd * m.d, hx * m.e11 + hy * m.e21, hd * m.e31);
    lemma_mul_is_distributive_add_other_way(kd * m.d, hx * m.e11, hy * m.e21);
    lemma_mul_is_distributive_add_other_way(hd * m.d, kx * m.e11 + ky * m.e21, kd * m.e31);
    lemma_mul_is_distributive_add_other_way(hd * m.d, kx * m.e11, ky * m.e21);
    lemma_mul_is_distributive_add_other_way(kd * m.d, hx * m.e12 + hy * m.e22, hd * m.e32);
    lemma_mul_is_distributive_add_other_way(kd * m.d, hx * m.e12, hy * m.e22);
    lemma_mul_is_distributive_add_other_way(hd * m.d, kx * m.e12 + ky * m.e22, kd * m.e32);
    lemma_mul_is_distributive_add_other_way(hd * m.d, kx * m.e12, ky * m.e22);
    lemma_congr_term(x.n, x.d, y.d, x2.n, x2.d, y2.d, m.e11, m.d);
    lemma_congr_cross(y.n, y.d, x.d, y2.n, y2.d, x2.d, m.e21, m.d);
    lemma_congr_den(x.d, y.d, x2.d, y2.d, m.e31, m.d);
    lemma_congr_term(x.n, x.d, y.d, x2.n, x2.d, y2.d, m.e12, m.d);
    lemma_congr_cross(y.n, y.d, x.d, y2.n, y2.d, x2.d, m.e22, m.d);
    lemma_congr_den(x.d, y.d, x2.d, y2.d, m.e32, m.d);
}

/// Regrouping six factors: two products times two scalars equals the
/// regrouped pair product times their product.
proof fn lemma_six_factor(p1: int, p2: int, e: int, w: int, q1: int, q2: int, ew: int)
    requires
        ew == e * w,
        p1 * p2 == q1 * q2,
    ensures
        (p1 * e) * (p2 * w) == q1 * (q2 * ew),
{
    assert((p1 * e) * (p2 * w) == (p1 * p2) * ew) by (nonlinear_arith)
        requires
            ew == e * w;
    assert((q1 * q2) * ew == q1 * (q2 * ew)) by (nonlinear_arith);
}

/// One homogenized numerator term respects value equality of the point.
proof fn lemma_congr_term(xn: int, xd: int, yd: int, kn: int, kd: int, ld: int, e: int, w: int)
    requires
        xn * kd == kn * xd,
    ensures
        ((xn * yd) * e) * ((kd * ld) * w) == ((kn * ld) * e) * ((xd * yd) * w),
{
    let ew: int = e * w;
    assert((xn * yd) * (kd * ld) == (xn * kd) * (yd * ld)) by (nonlinear_arith);
    lemma_six_factor(xn * yd, kd * ld, e, w, xn * kd, yd * ld, ew);
    assert((kn * ld) * (xd * yd) == (kn * xd) * (yd * ld)) by (nonlinear_arith);
    lemma_six_factor(kn * ld, xd * yd, e, w, kn * xd, yd * ld, ew);
}

/// The mirrored homogenized term respects value equality of the point.
proof fn lemma_congr_cross(yn: int, yd: int, xd: int, ln: int, ld: int, kd: int, e: int, w: int)
    requires
        yn * ld == ln * yd,
    ensures
        ((yn * xd) * e) * ((kd * ld) * w) == ((ln * kd) * e) * ((xd * yd) * w),
{
    let ew: int = e * w;
    assert((yn * xd) * (kd * ld) == (yn * ld) * (xd * kd)) by (nonlinear_arith);
    lemma_six_factor(yn * xd, kd * ld, e, w, yn * ld, xd * kd, ew);
    assert((ln * kd) * (xd * yd) == (ln * yd) * (xd * kd)) by (nonlinear_arith);
    lemma_six_factor(ln * kd, xd * yd, e, w, ln * yd, xd * kd, ew);
}

/// The translation-row term respects value equality of the point.
proof fn lemma_congr_den(xd: int, yd: int, kd: int, ld: int, e: int, w: int)
    ensures
        ((xd * yd) * e) * ((kd * ld) * w) == ((kd * ld) * e) * ((xd * yd) * w),
{
    let ew: int = e * w;
    assert((xd * yd) * (kd * ld) == (kd * ld) * (xd * yd)) by (nonlinear_arith);
    lemma_six_factor(xd * yd, kd * ld, e, w, kd * ld, xd * yd, ew);
    lemma_six_factor(kd * ld, xd * yd, e, w, kd * ld, xd * yd, ew);
}

} // verus!
