//! Exact 2x2 linear transform matrices.
//!
//! A matrix is held as four 64-bit integer entries over one positive
//! common denominator, so matrix algebra is integer algebra: products of
//! matrices multiply the entry blocks and the denominators separately,
//! and the inverse of a nonsingular matrix is exact. The mathematical
//! model is [`Gm2`], the same shape over unbounded integers; every
//! operation's contract pins its result to the corresponding exact
//! operation on [`Gm2`], and overflow of the 64-bit representation is
//! reported, never silently truncated.

use vstd::prelude::*;

use crate::dir::Dir;
use crate::error::NumericError;
use crate::rat::{
    fits_num, frac_add, frac_eq, frac_fits, frac_from_int, frac_mul, frac_recip, frac_sub, Frac,
    Rat,
};
use crate::vector2::{norm_sq, Vector2};

verus! {

/// Mathematical model of a 2x2 matrix: integer entries over one common
/// (positive) denominator, all unbounded.
pub ghost struct Gm2 {
    pub e11: int,
    pub e12: int,
    pub e21: int,
    pub e22: int,
    pub d: int,
}

pub open spec fn gm2_wf(m: Gm2) -> bool {
    m.d >= 1
}

/// The two matrices denote the same rational matrix (entrywise
/// cross-multiplication).
pub open spec fn gm2_eq(a: Gm2, b: Gm2) -> bool {
    &&& a.e11 * b.d == b.e11 * a.d
    &&& a.e12 * b.d == b.e12 * a.d
    &&& a.e21 * b.d == b.e21 * a.d
    &&& a.e22 * b.d == b.e22 * a.d
}

/// All entries and the denominator fit the 64-bit representation.
pub open spec fn gm2_fits(m: Gm2) -> bool {
    fits_num(m.e11) && fits_num(m.e12) && fits_num(m.e21) && fits_num(m.e22) && 1 <= m.d
        <= i64::MAX as int
}

pub open spec fn gm2_unit() -> Gm2 {
    Gm2 { e11: 1, e12: 0, e21: 0, e22: 1, d: 1 }
}

/// The matrix product: integer block product, denominators multiplied.
pub open spec fn gm2_mul(a: Gm2, b: Gm2) -> Gm2 {
    Gm2 {
        e11: a.e11 * b.e11 + a.e12 * b.e21,
        e12: a.e11 * b.e12 + a.e12 * b.e22,
        e21: a.e21 * b.e11 + a.e22 * b.e21,
        e22: a.e21 * b.e12 + a.e22 * b.e22,
        d: a.d * b.d,
    }
}

pub open spec fn gm2_transpose(m: Gm2) -> Gm2 {
    Gm2 { e11: m.e11, e12: m.e21, e21: m.e12, e22: m.e22, d: m.d }
}

/// The numerator of the determinant (over denominator `d * d`).
pub open spec fn gm2_det_n(m: Gm2) -> int {
    m.e11 * m.e22 - m.e12 * m.e21
}

/// The determinant as an exact rational.
pub open spec fn gm2_det(m: Gm2) -> Frac {
    Frac { n: gm2_det_n(m), d: m.d * m.d }
}

pub open spec fn gm2_adj(m: Gm2) -> Gm2 {
    Gm2 { e11: m.e22, e12: -m.e12, e21: -m.e21, e22: m.e11, d: m.d }
}

/// The exact inverse: the adjugate scaled by the reciprocal determinant,
/// with the sign arranged so the denominator stays positive. Meaningful
/// only when the determinant is nonzero.
pub open spec fn gm2_inv(m: Gm2) -> Gm2 {
    let dt = gm2_det_n(m);
    if dt >= 0 {
        Gm2 {
            e11: m.e22 * m.d,
            e12: -(m.e12 * m.d),
            e21: -(m.e21 * m.d),
            e22: m.e11 * m.d,
            d: dt,
        }
    } else {
        Gm2 {
            e11: -(m.e22 * m.d),
            e12: m.e12 * m.d,
            e21: m.e21 * m.d,
            e22: -(m.e11 * m.d),
            d: -dt,
        }
    }
}

pub open spec fn gm2_neg(m: Gm2) -> Gm2 {
    Gm2 { e11: -m.e11, e12: -m.e12, e21: -m.e21, e22: -m.e22, d: m.d }
}

/// The entrywise sum, over the product of the denominators.
pub open spec fn gm2_add(a: Gm2, b: Gm2) -> Gm2 {
    Gm2 {
        e11: a.e11 * b.d + b.e11 * a.d,
        e12: a.e12 * b.d + b.e12 * a.d,
        e21: a.e21 * b.d + b.e21 * a.d,
        e22: a.e22 * b.d + b.e22 * a.d,
        d: a.d * b.d,
    }
}

/// The matrix scaled by the rational `k`.
pub open spec fn gm2_smul(m: Gm2, k: Frac) -> Gm2 {
    Gm2 { e11: m.e11 * k.n, e12: m.e12 * k.n, e21: m.e21 * k.n, e22: m.e22 * k.n, d: m.d * k.d }
}

/// The rotation block for the exact cosine/sine pair `(c, s)`: rows are
/// `(c, s)` and `(-s, c)` (a row vector is rotated counter-clockwise).
pub open spec fn gm2_rotate(c: Frac, s: Frac) -> Gm2 {
    Gm2 { e11: c.n * s.d, e12: s.n * c.d, e21: -(s.n * c.d), e22: c.n * s.d, d: c.d * s.d }
}

/// The axis-scaling block `diag(kx, ky)`.
pub open spec fn gm2_scale(kx: Frac, ky: Frac) -> Gm2 {
    Gm2 { e11: kx.n * ky.d, e12: 0, e21: 0, e22: ky.n * kx.d, d: kx.d * ky.d }
}

pub open spec fn gm2_shear_x(s: Frac) -> Gm2 {
    Gm2 { e11: s.d, e12: 0, e21: s.n, e22: s.d, d: s.d }
}

pub open spec fn gm2_shear_y(s: Frac) -> Gm2 {
    Gm2 { e11: s.d, e12: s.n, e21: 0, e22: s.d, d: s.d }
}

/// Applying the matrix to a column vector stays within the
/// representation: each entry-times-component product and each row sum
/// fits.
pub open spec fn gm2_mul_vec_fits(m: Gm2, x: Frac, y: Frac) -> bool {
    let e11 = Frac { n: m.e11, d: m.d };
    let e12 = Frac { n: m.e12, d: m.d };
    let e21 = Frac { n: m.e21, d: m.d };
    let e22 = Frac { n: m.e22, d: m.d };
    &&& frac_fits(frac_mul(e11, x))
    &&& frac_fits(frac_mul(e12, y))
    &&& frac_fits(frac_add(frac_mul(e11, x), frac_mul(e12, y)))
    &&& frac_fits(frac_mul(e21, x))
    &&& frac_fits(frac_mul(e22, y))
    &&& frac_fits(frac_add(frac_mul(e21, x), frac_mul(e22, y)))
}

/// Multiplying a row vector by the matrix stays within the
/// representation.
pub open spec fn gm2_vec_mul_fits(x: Frac, y: Frac, m: Gm2) -> bool {
    let e11 = Frac { n: m.e11, d: m.d };
    let e12 = Frac { n: m.e12, d: m.d };
    let e21 = Frac { n: m.e21, d: m.d };
    let e22 = Frac { n: m.e22, d: m.d };
    &&& frac_fits(frac_mul(x, e11))
    &&& frac_fits(frac_mul(y, e21))
    &&& frac_fits(frac_add(frac_mul(x, e11), frac_mul(y, e21)))
    &&& frac_fits(frac_mul(x, e12))
    &&& frac_fits(frac_mul(y, e22))
    &&& frac_fits(frac_add(frac_mul(x, e12), frac_mul(y, e22)))
}

/// The matrix with the four given rational entries, over the product of
/// their denominators.
pub open spec fn gm2_from_rats(m11: Frac, m12: Frac, m21: Frac, m22: Frac) -> Gm2 {
    Gm2 {
        e11: ((m11.n * m12.d) * m21.d) * m22.d,
        e12: ((m12.n * m11.d) * m21.d) * m22.d,
        e21: ((m21.n * m11.d) * m12.d) * m22.d,
        e22: ((m22.n * m11.d) * m12.d) * m21.d,
        d: ((m11.d * m12.d) * m21.d) * m22.d,
    }
}

/// `1 + (k - 1) * nx * nx`: the diagonal entry of scaling along a normal.
pub open spec fn scale_n_diag(nc: Frac, k: Frac) -> Frac {
    frac_add(frac_from_int(1), frac_mul(frac_sub(k, frac_from_int(1)), frac_mul(nc, nc)))
}

/// `(k - 1) * nx * ny`: the off-diagonal entry of scaling along a normal.
pub open spec fn scale_n_off(nx: Frac, ny: Frac, k: Frac) -> Frac {
    frac_mul(frac_sub(k, frac_from_int(1)), frac_mul(nx, ny))
}

/// Every exact intermediate of scaling along a normal fits the
/// representation, so the matrix is computable.
pub open spec fn scale_n_fits(nx: Frac, ny: Frac, k: Frac) -> bool {
    let km1 = frac_sub(k, frac_from_int(1));
    &&& frac_fits(km1)
    &&& frac_fits(frac_mul(nx, nx))
    &&& frac_fits(frac_mul(ny, ny))
    &&& frac_fits(frac_mul(nx, ny))
    &&& frac_fits(frac_mul(km1, frac_mul(nx, nx)))
    &&& frac_fits(frac_mul(km1, frac_mul(ny, ny)))
    &&& frac_fits(frac_mul(km1, frac_mul(nx, ny)))
    &&& frac_fits(scale_n_diag(nx, k))
    &&& frac_fits(scale_n_diag(ny, k))
    &&& gm2_fits(
        gm2_from_rats(
            scale_n_diag(nx, k),
            scale_n_off(nx, ny, k),
            scale_n_off(nx, ny, k),
            scale_n_diag(ny, k),
        ),
    )
}

/// The product of two values of magnitude at most `i64::MAX` stays
/// within `(2^63 - 1)^2` in magnitude, so the sum of two such products
/// still fits a 128-bit integer.
pub(crate) proof fn lemma_i64_mul_bound(a: int, b: int)
    by (nonlinear_arith)
    requires
        -0x7fff_ffff_ffff_ffff <= a <= 0x7fff_ffff_ffff_ffff,
        -0x7fff_ffff_ffff_ffff <= b <= 0x7fff_ffff_ffff_ffff,
    ensures
        -0x3fff_ffff_ffff_ffff_0000_0000_0000_0001 <= a * b
            <= 0x3fff_ffff_ffff_ffff_0000_0000_0000_0001,
{
}

/// Multiplying by a factor of at least one never shrinks the magnitude.
pub(crate) proof fn lemma_mag_mul_ge(x: int, f: int)
    by (nonlinear_arith)
    requires
        f >= 1,
    ensures
        x >= 0 ==> x * f >= x,
        x <= 0 ==> x * f <= x,
{
}

/// The product of two positive 64-bit values is positive and within
/// `2^126`.
pub(crate) proof fn lemma_den_mul_bound(a: int, b: int)
    by (nonlinear_arith)
    requires
        1 <= a <= 0x7fff_ffff_ffff_ffff,
        1 <= b <= 0x7fff_ffff_ffff_ffff,
    ensures
        1 <= a * b <= 0x4000_0000_0000_0000_0000_0000_0000_0000,
{
}

/// An exact 2x2 matrix: integer entries `n11 .. n22` over the positive
/// common denominator `den`.
#[derive(Clone, Copy, Debug)]
pub struct Matrix2 {
    pub n11: i64,
    pub n12: i64,
    pub n21: i64,
    pub n22: i64,
    pub den: i64,
}

impl View for Matrix2 {
    type V = Gm2;

    open spec fn view(&self) -> Gm2 {
        Gm2 {
            e11: self.n11 as int,
            e12: self.n12 as int,
            e21: self.n21 as int,
            e22: self.n22 as int,
            d: self.den as int,
        }
    }
}

/// Packs checked 128-bit entries into a matrix, reporting overflow when
/// an entry or the denominator does not fit.
fn pack2(e11: i128, e12: i128, e21: i128, e22: i128, d: i128) -> (r: Result<
    Matrix2,
    NumericError,
>)
    requires
        1 <= d,
    ensures
        fits_num(e11 as int) && fits_num(e12 as int) && fits_num(e21 as int) && fits_num(
            e22 as int,
        ) && d <= i64::MAX as i128 ==> (r matches Ok(m) && m.wf() && m@ == Gm2 {
            e11: e11 as int,
            e12: e12 as int,
            e21: e21 as int,
            e22: e22 as int,
            d: d as int,
        }),
        !(fits_num(e11 as int) && fits_num(e12 as int) && fits_num(e21 as int) && fits_num(
            e22 as int,
        ) && d <= i64::MAX as i128) ==> r == Err::<Matrix2, NumericError>(NumericError::Overflow),
    {
    let lo: i128 = -(i64::MAX as i128);
    let hi: i128 = i64::MAX as i128;
    if lo <= e11 && e11 <= hi && lo <= e12 && e12 <= hi && lo <= e21 && e21 <= hi && lo <= e22
        && e22 <= hi && d <= hi {
        Ok(
            Matrix2 {
                n11: e11 as i64,
                n12: e12 as i64,
                n21: e21 as i64,
                n22: e22 as i64,
                den: d as i64,
            },
        )
    } else {
        Err(NumericError::Overflow)
    }
}

/// The exact product `((a * b) * c) * d` of one numerator and three
/// denominators, when it fits the representation.
fn prod4(a: i64, b: i64, c: i64, d: i64) -> (r: Result<i64, NumericError>)
    requires
        a > i64::MIN,
        b >= 1,
        c >= 1,
        d >= 1,
    ensures
        r matches Ok(v) ==> (v as int) == ((a * b) * c) * d && v > i64::MIN,
        r matches Ok(v) ==> (a >= 1 ==> v >= 1),
        fits_num(((a * b) * c) * d) ==> r is Ok,
        r is Err ==> r == Err::<i64, NumericError>(NumericError::Overflow),
{
    proof {
        lemma_i64_mul_bound(a as int, b as int);
    }
    let t1: i128 = (a as i128) * (b as i128);
    if t1 < -(i64::MAX as i128) || t1 > i64::MAX as i128 {
        proof {
            lemma_mag_mul_ge(t1 as int, c as int);
            lemma_mag_mul_ge((t1 as int) * (c as int), d as int);
        }
        return Err(NumericError::Overflow);
    }
    proof {
        lemma_i64_mul_bound(t1 as int, c as int);
    }
    let t2: i128 = t1 * (c as i128);
    if t2 < -(i64::MAX as i128) || t2 > i64::MAX as i128 {
        proof {
            lemma_mag_mul_ge(t2 as int, d as int);
        }
        return Err(NumericError::Overflow);
    }
    proof {
        lemma_i64_mul_bound(t2 as int, d as int);
    }
    let t3: i128 = t2 * (d as i128);
    if t3 < -(i64::MAX as i128) || t3 > i64::MAX as i128 {
        return Err(NumericError::Overflow);
    }
    proof {
        if a >= 1 {
            assert(t3 >= 1) by (nonlinear_arith)
                requires
                    t3 == ((a as int) * (b as int)) * (c as int) * (d as int),
                    a >= 1,
                    b >= 1,
                    c >= 1,
                    d >= 1;
        }
    }
    Ok(t3 as i64)
}

impl Matrix2 {
    /// Well-formed: positive denominator, and entries whose negations
    /// also fit.
    pub open spec fn wf(self) -> bool {
        self.den >= 1 && self.n11 > i64::MIN && self.n12 > i64::MIN && self.n21 > i64::MIN
            && self.n22 > i64::MIN
    }

    /// The four entries as exact rationals.
    pub fn m11(&self) -> (r: Rat)
        requires
            self.wf(),
        ensures
            r.wf(),
            r@ == (Frac { n: self@.e11, d: self@.d }),
    {
        Rat { num: self.n11, den: self.den }
    }

    pub fn m12(&self) -> (r: Rat)
        requires
            self.wf(),
        ensures
            r.wf(),
            r@ == (Frac { n: self@.e12, d: self@.d }),
    {
        Rat { num: self.n12, den: self.den }
    }

    pub fn m21(&self) -> (r: Rat)
        requires
            self.wf(),
        ensures
            r.wf(),
            r@ == (Frac { n: self@.e21, d: self@.d }),
    {
        Rat { num: self.n21, den: self.den }
    }

    pub fn m22(&self) -> (r: Rat)
        requires
            self.wf(),
        ensures
            r.wf(),
            r@ == (Frac { n: self@.e22, d: self@.d }),
    {
        Rat { num: self.n22, den: self.den }
    }

    /// The matrix with the four given rational entries.
    pub fn new(m11: Rat, m12: Rat, m21: Rat, m22: Rat) -> (r: Result<Matrix2, NumericError>)
        requires
            m11.wf(),
            m12.wf(),
            m21.wf(),
            m22.wf(),
        ensures
            r matches Ok(m) ==> m.wf() && m@ == gm2_from_rats(m11@, m12@, m21@, m22@),
            gm2_fits(gm2_from_rats(m11@, m12@, m21@, m22@)) ==> r is Ok,
            r is Err ==> r == Err::<Matrix2, NumericError>(NumericError::Overflow),
    {
        let e11 = prod4(m11.num, m12.den, m21.den, m22.den)?;
        let e12 = prod4(m12.num, m11.den, m21.den, m22.den)?;
        let e21 = prod4(m21.num, m11.den, m12.den, m22.den)?;
        let e22 = prod4(m22.num, m11.den, m12.den, m21.den)?;
        let d = prod4(m11.den, m12.den, m21.den, m22.den)?;
        Ok(Matrix2 { n11: e11, n12: e12, n21: e21, n22: e22, den: d })
    }

    /// A builder that starts at the identity and folds one elementary
    /// transform per call, in call order.
    pub fn builder() -> (r: Matrix2Build)
        ensures
            r.wf(),
            r.state matches Ok(m) && m@ == gm2_unit(),
    {
        Matrix2Build { state: Ok(Matrix2::unit()) }
    }

    /// The identity matrix.
    pub fn unit() -> (r: Matrix2)
        ensures
            r.wf(),
            r@ == gm2_unit(),
    {
        Matrix2 { n11: 1, n12: 0, n21: 0, n22: 1, den: 1 }
    }

    /// The transpose; always exact.
    pub fn transpose(self) -> (r: Matrix2)
        requires
            self.wf(),
        ensures
            r.wf(),
            r@ == gm2_transpose(self@),
    {
        Matrix2 { n11: self.n11, n12: self.n21, n21: self.n12, n22: self.n22, den: self.den }
    }

    /// The rotation matrix for the exact cosine/sine pair `rot`.
    pub fn rotate(rot: Dir) -> (r: Result<Matrix2, NumericError>)
        requires
            rot.wf(),
        ensures
            gm2_fits(gm2_rotate(rot.c@, rot.s@)) ==> (r matches Ok(m) && m.wf() && m@
                == gm2_rotate(rot.c@, rot.s@)),
            !gm2_fits(gm2_rotate(rot.c@, rot.s@)) ==> r == Err::<Matrix2, NumericError>(
                NumericError::Overflow,
            ),
    {
        proof {
            lemma_i64_mul_bound(rot.c.num as int, rot.s.den as int);
            lemma_i64_mul_bound(rot.s.num as int, rot.c.den as int);
            lemma_den_mul_bound(rot.c.den as int, rot.s.den as int);
        }
        let a: i128 = (rot.c.num as i128) * (rot.s.den as i128);
        let b: i128 = (rot.s.num as i128) * (rot.c.den as i128);
        let d: i128 = (rot.c.den as i128) * (rot.s.den as i128);
        pack2(a, b, -b, a, d)
    }

    /// The axis-scaling matrix `diag(kx, ky)`.
    pub fn scale(kx: Rat, ky: Rat) -> (r: Result<Matrix2, NumericError>)
        requires
            kx.wf(),
            ky.wf(),
        ensures
            gm2_fits(gm2_scale(kx@, ky@)) ==> (r matches Ok(m) && m.wf() && m@ == gm2_scale(
                kx@,
                ky@,
            )),
            !gm2_fits(gm2_scale(kx@, ky@)) ==> r == Err::<Matrix2, NumericError>(
                NumericError::Overflow,
            ),
    {
        proof {
            lemma_i64_mul_bound(kx.num as int, ky.den as int);
            lemma_i64_mul_bound(ky.num as int, kx.den as int);
            lemma_den_mul_bound(kx.den as int, ky.den as int);
        }
        let a: i128 = (kx.num as i128) * (ky.den as i128);
        let b: i128 = (ky.num as i128) * (kx.den as i128);
        let d: i128 = (kx.den as i128) * (ky.den as i128);
        pack2(a, 0, 0, b, d)
    }

    /// Scaling by the factor `k` along the unit normal `n`:
    /// `I + (k - 1) * n * n^T`.
    pub fn scale_n(n: Vector2, k: Rat) -> (r: Result<Matrix2, NumericError>)
        requires
            n.wf(),
            k.wf(),
            frac_eq(norm_sq(n.x@, n.y@), frac_from_int(1)),
        ensures
            r matches Ok(m) ==> m.wf() && m@ == gm2_from_rats(
                scale_n_diag(n.x@, k@),
                scale_n_off(n.x@, n.y@, k@),
                scale_n_off(n.x@, n.y@, k@),
                scale_n_diag(n.y@, k@),
            ),
            scale_n_fits(n.x@, n.y@, k@) ==> r is Ok,
            r is Err ==> r == Err::<Matrix2, NumericError>(NumericError::Overflow),
    {
        let one = Rat::one();
        let km1 = k.sub(one)?;
        let xx = n.x.mul(n.x)?;
        let yy = n.y.mul(n.y)?;
        let xy = n.x.mul(n.y)?;
        let e11 = one.add(km1.mul(xx)?)?;
        let e22 = one.add(km1.mul(yy)?)?;
        let off = km1.mul(xy)?;
        Matrix2::new(e11, off, off, e22)
    }

    /// Projection onto the x axis.
    pub fn project_x() -> (r: Matrix2)
        ensures
            r.wf(),
            r@ == (Gm2 { e11: 1, e12: 0, e21: 0, e22: 0, d: 1 }),
    {
        Matrix2 { n11: 1, n12: 0, n21: 0, n22: 0, den: 1 }
    }

    /// Projection onto the y axis.
    pub fn project_y() -> (r: Matrix2)
        ensures
            r.wf(),
            r@ == (Gm2 { e11: 0, e12: 0, e21: 0, e22: 1, d: 1 }),
    {
        Matrix2 { n11: 0, n12: 0, n21: 0, n22: 1, den: 1 }
    }

    /// Projection onto the unit normal `n`: scaling by zero along it.
    pub fn project_n(n: Vector2) -> (r: Result<Matrix2, NumericError>)
        requires
            n.wf(),
            frac_eq(norm_sq(n.x@, n.y@), frac_from_int(1)),
        ensures
            r matches Ok(m) ==> m.wf() && m@ == gm2_from_rats(
                scale_n_diag(n.x@, frac_from_int(0)),
                scale_n_off(n.x@, n.y@, frac_from_int(0)),
                scale_n_off(n.x@, n.y@, frac_from_int(0)),
                scale_n_diag(n.y@, frac_from_int(0)),
            ),
            scale_n_fits(n.x@, n.y@, frac_from_int(0)) ==> r is Ok,
            r is Err ==> r == Err::<Matrix2, NumericError>(NumericError::Overflow),
    {
        Matrix2::scale_n(n, Rat::zero())
    }

    /// Reflection about the unit normal `n`: scaling by minus one along
    /// it.
    pub fn reflect_n(n: Vector2) -> (r: Result<Matrix2, NumericError>)
        requires
            n.wf(),
            frac_eq(norm_sq(n.x@, n.y@), frac_from_int(1)),
        ensures
            r matches Ok(m) ==> m.wf() && m@ == gm2_from_rats(
                scale_n_diag(n.x@, frac_from_int(-1)),
                scale_n_off(n.x@, n.y@, frac_from_int(-1)),
                scale_n_off(n.x@, n.y@, frac_from_int(-1)),
                scale_n_diag(n.y@, frac_from_int(-1)),
            ),
            scale_n_fits(n.x@, n.y@, frac_from_int(-1)) ==> r is Ok,
            r is Err ==> r == Err::<Matrix2, NumericError>(NumericError::Overflow),
    {
        Matrix2::scale_n(n, Rat::from_int(-1))
    }

    /// The x-shear matrix (rows `(1, 0)` and `(s, 1)`); always exact.
    pub fn shear_x(s: Rat) -> (r: Matrix2)
        requires
            s.wf(),
        ensures
            r.wf(),
            r@ == gm2_shear_x(s@),
    {
        Matrix2 { n11: s.den, n12: 0, n21: s.num, n22: s.den, den: s.den }
    }

    /// The y-shear matrix (rows `(1, s)` and `(0, 1)`); always exact.
    pub fn shear_y(s: Rat) -> (r: Matrix2)
        requires
            s.wf(),
        ensures
            r.wf(),
            r@ == gm2_shear_y(s@),
    {
        Matrix2 { n11: s.den, n12: s.num, n21: 0, n22: s.den, den: s.den }
    }

    /// The exact determinant.
    pub fn determinant(&self) -> (r: Result<Rat, NumericError>)
        requires
            self.wf(),
        ensures
            frac_fits(gm2_det(self@)) ==> (r matches Ok(v) && v.wf() && v@ == gm2_det(self@)),
            !frac_fits(gm2_det(self@)) ==> r == Err::<Rat, NumericError>(NumericError::Overflow),
    {
        proof {
            lemma_i64_mul_bound(self.n11 as int, self.n22 as int);
            lemma_i64_mul_bound(self.n12 as int, self.n21 as int);
            lemma_den_mul_bound(self.den as int, self.den as int);
        }
        let n: i128 = (self.n11 as i128) * (self.n22 as i128) - (self.n12 as i128) * (self.n21
            as i128);
        let d: i128 = (self.den as i128) * (self.den as i128);
        if n >= -(i64::MAX as i128) && n <= i64::MAX as i128 && d <= i64::MAX as i128 {
            Ok(Rat { num: n as i64, den: d as i64 })
        } else {
            Err(NumericError::Overflow)
        }
    }

    /// The adjugate; always exact.
    pub fn adjoint(self) -> (r: Matrix2)
        requires
            self.wf(),
        ensures
            r.wf(),
            r@ == gm2_adj(self@),
    {
        Matrix2 {
            n11: self.n22,
            n12: -self.n12,
            n21: -self.n21,
            n22: self.n11,
            den: self.den,
        }
    }

    /// The exact inverse: `Singular` exactly when the determinant is
    /// zero, `Overflow` when the exact inverse does not fit, the exact
    /// inverse otherwise. The inverse laws — a matrix times its inverse
    /// is the identity, and inverting twice gives the matrix back — are
    /// [`lemma_mul_inverse_is_unit`] and [`lemma_inverse_involution`].
    pub fn inverse(self) -> (r: Result<Matrix2, NumericError>)
        requires
            self.wf(),
        ensures
            gm2_det_n(self@) == 0 ==> r == Err::<Matrix2, NumericError>(NumericError::Singular),
            gm2_det_n(self@) != 0 && gm2_fits(gm2_inv(self@)) ==> (r matches Ok(m) && m.wf() && m@
                == gm2_inv(self@)),
            gm2_det_n(self@) != 0 && !gm2_fits(gm2_inv(self@)) ==> r == Err::<
                Matrix2,
                NumericError,
            >(NumericError::Overflow),
    {
        proof {
            lemma_i64_mul_bound(self.n11 as int, self.n22 as int);
            lemma_i64_mul_bound(self.n12 as int, self.n21 as int);
            lemma_i64_mul_bound(self.n11 as int, self.den as int);
            lemma_i64_mul_bound(self.n12 as int, self.den as int);
            lemma_i64_mul_bound(self.n21 as int, self.den as int);
            lemma_i64_mul_bound(self.n22 as int, self.den as int);
        }
        let dt: i128 = (self.n11 as i128) * (self.n22 as i128) - (self.n12 as i128) * (self.n21
            as i128);
        if dt == 0 {
            return Err(NumericError::Singular);
        }
        let a: i128 = (self.n22 as i128) * (self.den as i128);
        let b: i128 = (self.n12 as i128) * (self.den as i128);
        let c: i128 = (self.n21 as i128) * (self.den as i128);
        let e: i128 = (self.n11 as i128) * (self.den as i128);
        if dt > 0 {
            pack2(a, -b, -c, e, dt)
        } else {
            pack2(-a, b, c, -e, -dt)
        }
    }

    /// The exact matrix product.
    pub fn mul(self, rhs: Matrix2) -> (r: Result<Matrix2, NumericError>)
        requires
            self.wf(),
            rhs.wf(),
        ensures
            gm2_fits(gm2_mul(self@, rhs@)) ==> (r matches Ok(m) && m.wf() && m@ == gm2_mul(
                self@,
                rhs@,
            )),
            !gm2_fits(gm2_mul(self@, rhs@)) ==> r == Err::<Matrix2, NumericError>(
                NumericError::Overflow,
            ),
    {
        proof {
            lemma_i64_mul_bound(self.n11 as int, rhs.n11 as int);
            lemma_i64_mul_bound(self.n12 as int, rhs.n21 as int);
            lemma_i64_mul_bound(self.n11 as int, rhs.n12 as int);
            lemma_i64_mul_bound(self.n12 as int, rhs.n22 as int);
            lemma_i64_mul_bound(self.n21 as int, rhs.n11 as int);
            lemma_i64_mul_bound(self.n22 as int, rhs.n21 as int);
            lemma_i64_mul_bound(self.n21 as int, rhs.n12 as int);
            lemma_i64_mul_bound(self.n22 as int, rhs.n22 as int);
            lemma_den_mul_bound(self.den as int, rhs.den as int);
        }
        let e11: i128 = (self.n11 as i128) * (rhs.n11 as i128) + (self.n12 as i128) * (rhs.n21
            as i128);
        let e12: i128 = (self.n11 as i128) * (rhs.n12 as i128) + (self.n12 as i128) * (rhs.n22
            as i128);
        let e21: i128 = (self.n21 as i128) * (rhs.n11 as i128) + (self.n22 as i128) * (rhs.n21
            as i128);
        let e22: i128 = (self.n21 as i128) * (rhs.n12 as i128) + (self.n22 as i128) * (rhs.n22
            as i128);
        let d: i128 = (self.den as i128) * (rhs.den as i128);
        pack2(e11, e12, e21, e22, d)
    }

    /// The entrywise negation; always exact.
    pub fn neg(self) -> (r: Matrix2)
        requires
            self.wf(),
        ensures
            r.wf(),
            r@ == gm2_neg(self@),
    {
        Matrix2 {
            n11: -self.n11,
            n12: -self.n12,
            n21: -self.n21,
            n22: -self.n22,
            den: self.den,
        }
    }

    /// The exact entrywise sum.
    pub fn add(self, rhs: Matrix2) -> (r: Result<Matrix2, NumericError>)
        requires
            self.wf(),
            rhs.wf(),
        ensures
            gm2_fits(gm2_add(self@, rhs@)) ==> (r matches Ok(m) && m.wf() && m@ == gm2_add(
                self@,
                rhs@,
            )),
            !gm2_fits(gm2_add(self@, rhs@)) ==> r == Err::<Matrix2, NumericError>(
                NumericError::Overflow,
            ),
    {
        proof {
            lemma_i64_mul_bound(self.n11 as int, rhs.den as int);
            lemma_i64_mul_bound(rhs.n11 as int, self.den as int);
            lemma_i64_mul_bound(self.n12 as int, rhs.den as int);
            lemma_i64_mul_bound(rhs.n12 as int, self.den as int);
            lemma_i64_mul_bound(self.n21 as int, rhs.den as int);
            lemma_i64_mul_bound(rhs.n21 as int, self.den as int);
            lemma_i64_mul_bound(self.n22 as int, rhs.den as int);
            lemma_i64_mul_bound(rhs.n22 as int, self.den as int);
            lemma_den_mul_bound(self.den as int, rhs.den as int);
        }
        let sd: i128 = self.den as i128;
        let rd: i128 = rhs.den as i128;
        let e11: i128 = (self.n11 as i128) * rd + (rhs.n11 as i128) * sd;
        let e12: i128 = (self.n12 as i128) * rd + (rhs.n12 as i128) * sd;
        let e21: i128 = (self.n21 as i128) * rd + (rhs.n21 as i128) * sd;
        let e22: i128 = (self.n22 as i128) * rd + (rhs.n22 as i128) * sd;
        pack2(e11, e12, e21, e22, sd * rd)
    }

    /// The exact entrywise difference, as the sum with the negation.
    pub fn sub(self, rhs: Matrix2) -> (r: Result<Matrix2, NumericError>)
        requires
            self.wf(),
            rhs.wf(),
        ensures
            gm2_fits(gm2_add(self@, gm2_neg(rhs@))) ==> (r matches Ok(m) && m.wf() && m@
                == gm2_add(self@, gm2_neg(rhs@))),
            !gm2_fits(gm2_add(self@, gm2_neg(rhs@))) ==> r == Err::<Matrix2, NumericError>(
                NumericError::Overflow,
            ),
    {
        self.add(rhs.neg())
    }

    /// The exact scalar multiple.
    pub fn smul(self, k: Rat) -> (r: Result<Matrix2, NumericError>)
        requires
            self.wf(),
            k.wf(),
        ensures
            gm2_fits(gm2_smul(self@, k@)) ==> (r matches Ok(m) && m.wf() && m@ == gm2_smul(
                self@,
                k@,
            )),
            !gm2_fits(gm2_smul(self@, k@)) ==> r == Err::<Matrix2, NumericError>(
                NumericError::Overflow,
            ),
    {
        proof {
            lemma_i64_mul_bound(self.n11 as int, k.num as int);
            lemma_i64_mul_bound(self.n12 as int, k.num as int);
            lemma_i64_mul_bound(self.n21 as int, k.num as int);
            lemma_i64_mul_bound(self.n22 as int, k.num as int);
            lemma_den_mul_bound(self.den as int, k.den as int);
        }
        let kn: i128 = k.num as i128;
        pack2(
            (self.n11 as i128) * kn,
            (self.n12 as i128) * kn,
            (self.n21 as i128) * kn,
            (self.n22 as i128) * kn,
            (self.den as i128) * (k.den as i128),
        )
    }

    /// The exact scalar quotient: `DivisionByZero` on a zero scalar.
    pub fn sdiv(self, k: Rat) -> (r: Result<Matrix2, NumericError>)
        requires
            self.wf(),
            k.wf(),
        ensures
            k.num == 0 ==> r == Err::<Matrix2, NumericError>(NumericError::DivisionByZero),
            k.num != 0 && gm2_fits(gm2_smul(self@, frac_recip(k@))) ==> (r matches Ok(m) && m.wf()
                && m@ == gm2_smul(self@, frac_recip(k@))),
            k.num != 0 && !gm2_fits(gm2_smul(self@, frac_recip(k@))) ==> r == Err::<
                Matrix2,
                NumericError,
            >(NumericError::Overflow),
    {
        match k.recip() {
            Ok(inv) => self.smul(inv),
            Err(e) => Err(e),
        }
    }

    /// Exact value equality of the two matrices (independent of the
    /// representations chosen).
    pub fn eq_mat(&self, rhs: &Matrix2) -> (r: bool)
        requires
            self.wf(),
            rhs.wf(),
        ensures
            r == gm2_eq(self@, rhs@),
    {
        proof {
            lemma_i64_mul_bound(self.n11 as int, rhs.den as int);
            lemma_i64_mul_bound(rhs.n11 as int, self.den as int);
            lemma_i64_mul_bound(self.n12 as int, rhs.den as int);
            lemma_i64_mul_bound(rhs.n12 as int, self.den as int);
            lemma_i64_mul_bound(self.n21 as int, rhs.den as int);
            lemma_i64_mul_bound(rhs.n21 as int, self.den as int);
            lemma_i64_mul_bound(self.n22 as int, rhs.den as int);
            lemma_i64_mul_bound(rhs.n22 as int, self.den as int);
        }
        let sd: i128 = self.den as i128;
        let rd: i128 = rhs.den as i128;
        (self.n11 as i128) * rd == (rhs.n11 as i128) * sd && (self.n12 as i128) * rd == (rhs.n12
            as i128) * sd && (self.n21 as i128) * rd == (rhs.n21 as i128) * sd && (self.n22
            as i128) * rd == (rhs.n22 as i128) * sd
    }

    /// The matrix applied to a column vector: `M * v`.
    pub fn mul_vec(&self, v: &Vector2) -> (r: Result<Vector2, NumericError>)
        requires
            self.wf(),
            v.wf(),
        ensures
            r matches Ok(w) ==> w.wf() && w.x@ == frac_add(
                frac_mul(Frac { n: self@.e11, d: self@.d }, v.x@),
                frac_mul(Frac { n: self@.e12, d: self@.d }, v.y@),
            ) && w.y@ == frac_add(
                frac_mul(Frac { n: self@.e21, d: self@.d }, v.x@),
                frac_mul(Frac { n: self@.e22, d: self@.d }, v.y@),
            ),
            gm2_mul_vec_fits(self@, v.x@, v.y@) ==> r is Ok,
            r is Err ==> r == Err::<Vector2, NumericError>(NumericError::Overflow),
    {
        let x = self.m11().mul(v.x)?.add(self.m12().mul(v.y)?)?;
        let y = self.m21().mul(v.x)?.add(self.m22().mul(v.y)?)?;
        Ok(Vector2 { x, y })
    }
}

impl Vector2 {
    /// The row vector multiplied by the matrix: `v * M`.
    pub fn mul_mat2(self, m: &Matrix2) -> (r: Result<Vector2, NumericError>)
        requires
            self.wf(),
            m.wf(),
        ensures
            r matches Ok(w) ==> w.wf() && w.x@ == frac_add(
                frac_mul(self.x@, Frac { n: m@.e11, d: m@.d }),
                frac_mul(self.y@, Frac { n: m@.e21, d: m@.d }),
            ) && w.y@ == frac_add(
                frac_mul(self.x@, Frac { n: m@.e12, d: m@.d }),
                frac_mul(self.y@, Frac { n: m@.e22, d: m@.d }),
            ),
            gm2_vec_mul_fits(self.x@, self.y@, m@) ==> r is Ok,
            r is Err ==> r == Err::<Vector2, NumericError>(NumericError::Overflow),
    {
        let x = self.x.mul(m.m11())?.add(self.y.mul(m.m21())?)?;
        let y = self.x.mul(m.m12())?.add(self.y.mul(m.m22())?)?;
        Ok(Vector2 { x, y })
    }
}

/// A fluent accumulator for composing elementary transforms: starts at
/// the identity and folds one transform per call, in call order; a row
/// vector multiplied by the built matrix undergoes the transforms in that
/// same order. A failure (overflow) in any step is remembered and
/// returned by `build`.
pub struct Matrix2Build {
    pub state: Result<Matrix2, NumericError>,
}

impl Matrix2Build {
    pub open spec fn wf(self) -> bool {
        match self.state {
            Ok(m) => m.wf(),
            Err(_) => true,
        }
    }

    /// Folds the matrix `e` into the accumulated state (on the right).
    fn step(self, e: Result<Matrix2, NumericError>) -> (r: Matrix2Build)
        requires
            self.wf(),
            e matches Ok(m) ==> m.wf(),
        ensures
            r.wf(),
            self.state matches Ok(m) ==> (e matches Ok(em) ==> (gm2_fits(gm2_mul(m@, em@)) ==> (
            r.state matches Ok(m2) && m2@ == gm2_mul(m@, em@)))),
            self.state matches Ok(m) ==> (e matches Ok(em) ==> (!gm2_fits(gm2_mul(m@, em@))
                ==> r.state == Err::<Matrix2, NumericError>(NumericError::Overflow))),
            self.state is Ok ==> (e matches Err(er) ==> r.state == Err::<
                Matrix2,
                NumericError,
            >(er)),
            self.state is Err ==> r.state == self.state,
    {
        match self.state {
            Ok(m) => match e {
                Ok(em) => Matrix2Build { state: m.mul(em) },
                Err(er) => Matrix2Build { state: Err(er) },
            },
            Err(er) => Matrix2Build { state: Err(er) },
        }
    }

    /// Folds a rotation by the exact cosine/sine pair `rot`.
    pub fn rotate(self, rot: Dir) -> (r: Matrix2Build)
        requires
            self.wf(),
            rot.wf(),
        ensures
            r.wf(),
            self.state matches Ok(m) ==> (gm2_fits(gm2_rotate(rot.c@, rot.s@)) && gm2_fits(
                gm2_mul(m@, gm2_rotate(rot.c@, rot.s@)),
            ) ==> (r.state matches Ok(m2) && m2@ == gm2_mul(m@, gm2_rotate(rot.c@, rot.s@)))),
            self.state matches Ok(m) ==> (r.state matches Ok(m2) ==> m2@ == gm2_mul(m@, gm2_rotate(rot.c@, rot.s@))),
            self.state is Err ==> r.state == self.state,
            r.state is Err ==> self.state is Err || r.state == Err::<Matrix2, NumericError>(
                NumericError::Overflow,
            ),
    {
        self.step(Matrix2::rotate(rot))
    }

    /// Folds an axis scaling `diag(kx, ky)`.
    pub fn scale(self, kx: Rat, ky: Rat) -> (r: Matrix2Build)
        requires
            self.wf(),
            kx.wf(),
            ky.wf(),
        ensures
            r.wf(),
            self.state matches Ok(m) ==> (gm2_fits(gm2_scale(kx@, ky@)) && gm2_fits(
                gm2_mul(m@, gm2_scale(kx@, ky@)),
            ) ==> (r.state matches Ok(m2) && m2@ == gm2_mul(m@, gm2_scale(kx@, ky@)))),
            self.state matches Ok(m) ==> (r.state matches Ok(m2) ==> m2@ == gm2_mul(m@, gm2_scale(kx@, ky@))),
            self.state is Err ==> r.state == self.state,
            r.state is Err ==> self.state is Err || r.state == Err::<Matrix2, NumericError>(
                NumericError::Overflow,
            ),
    {
        self.step(Matrix2::scale(kx, ky))
    }

    /// Folds a scaling by `k` along the unit normal `n`.
    pub fn scale_n(self, n: Vector2, k: Rat) -> (r: Matrix2Build)
        requires
            self.wf(),
            n.wf(),
            k.wf(),
            frac_eq(norm_sq(n.x@, n.y@), frac_from_int(1)),
        ensures
            r.wf(),
            self.state matches Ok(m) ==> (r.state matches Ok(m2) ==> m2@ == gm2_mul(
                m@,
                gm2_from_rats(
                    scale_n_diag(n.x@, k@),
                    scale_n_off(n.x@, n.y@, k@),
                    scale_n_off(n.x@, n.y@, k@),
                    scale_n_diag(n.y@, k@),
                ),
            )),
            self.state is Err ==> r.state == self.state,
            r.state is Err ==> self.state is Err || r.state == Err::<Matrix2, NumericError>(
                NumericError::Overflow,
            ),
    {
        self.step(Matrix2::scale_n(n, k))
    }

    /// Folds the projection onto the x axis.
    pub fn project_x(self) -> (r: Matrix2Build)
        requires
            self.wf(),
        ensures
            r.wf(),
            self.state matches Ok(m) ==> (r.state matches Ok(m2) ==> m2@ == gm2_mul(
                m@,
                Gm2 { e11: 1, e12: 0, e21: 0, e22: 0, d: 1 },
            )),
            self.state is Err ==> r.state == self.state,
            r.state is Err ==> self.state is Err || r.state == Err::<Matrix2, NumericError>(
                NumericError::Overflow,
            ),
    {
        self.step(Ok(Matrix2::project_x()))
    }

    /// Folds the projection onto the y axis.
    pub fn project_y(self) -> (r: Matrix2Build)
        requires
            self.wf(),
        ensures
            r.wf(),
            self.state matches Ok(m) ==> (r.state matches Ok(m2) ==> m2@ == gm2_mul(
                m@,
                Gm2 { e11: 0, e12: 0, e21: 0, e22: 1, d: 1 },
            )),
            self.state is Err ==> r.state == self.state,
            r.state is Err ==> self.state is Err || r.state == Err::<Matrix2, NumericError>(
                NumericError::Overflow,
            ),
    {
        self.step(Ok(Matrix2::project_y()))
    }

    /// Folds the projection onto the unit normal `n`.
    pub fn project_n(self, n: Vector2) -> (r: Matrix2Build)
        requires
            self.wf(),
            n.wf(),
            frac_eq(norm_sq(n.x@, n.y@), frac_from_int(1)),
        ensures
            r.wf(),
            self.state matches Ok(m) ==> (r.state matches Ok(m2) ==> m2@ == gm2_mul(
                m@,
                gm2_from_rats(
                    scale_n_diag(n.x@, frac_from_int(0)),
                    scale_n_off(n.x@, n.y@, frac_from_int(0)),
                    scale_n_off(n.x@, n.y@, frac_from_int(0)),
                    scale_n_diag(n.y@, frac_from_int(0)),
                ),
            )),
            self.state is Err ==> r.state == self.state,
            r.state is Err ==> self.state is Err || r.state == Err::<Matrix2, NumericError>(
                NumericError::Overflow,
            ),
    {
        self.step(Matrix2::project_n(n))
    }

    /// Folds the reflection about the unit normal `n`.
    pub fn reflect_n(self, n: Vector2) -> (r: Matrix2Build)
        requires
            self.wf(),
            n.wf(),
            frac_eq(norm_sq(n.x@, n.y@), frac_from_int(1)),
        ensures
            r.wf(),
            self.state matches Ok(m) ==> (r.state matches Ok(m2) ==> m2@ == gm2_mul(
                m@,
                gm2_from_rats(
                    scale_n_diag(n.x@, frac_from_int(-1)),
                    scale_n_off(n.x@, n.y@, frac_from_int(-1)),
                    scale_n_off(n.x@, n.y@, frac_from_int(-1)),
                    scale_n_diag(n.y@, frac_from_int(-1)),
                ),
            )),
            self.state is Err ==> r.state == self.state,
            r.state is Err ==> self.state is Err || r.state == Err::<Matrix2, NumericError>(
                NumericError::Overflow,
            ),
    {
        self.step(Matrix2::reflect_n(n))
    }

    /// Folds an x shear.
    pub fn shear_x(self, s: Rat) -> (r: Matrix2Build)
        requires
            self.wf(),
            s.wf(),
        ensures
            r.wf(),
            self.state matches Ok(m) ==> (gm2_fits(gm2_mul(m@, gm2_shear_x(s@))) ==> (r.state
                matches Ok(m2) && m2@ == gm2_mul(m@, gm2_shear_x(s@)))),
            self.state matches Ok(m) ==> (r.state matches Ok(m2) ==> m2@ == gm2_mul(m@, gm2_shear_x(s@))),
            self.state is Err ==> r.state == self.state,
            r.state is Err ==> self.state is Err || r.state == Err::<Matrix2, NumericError>(
                NumericError::Overflow,
            ),
    {
        self.step(Ok(Matrix2::shear_x(s)))
    }

    /// Folds a y shear.
    pub fn shear_y(self, s: Rat) -> (r: Matrix2Build)
        requires
            self.wf(),
            s.wf(),
        ensures
            r.wf(),
            self.state matches Ok(m) ==> (gm2_fits(gm2_mul(m@, gm2_shear_y(s@))) ==> (r.state
                matches Ok(m2) && m2@ == gm2_mul(m@, gm2_shear_y(s@)))),
            self.state matches Ok(m) ==> (r.state matches Ok(m2) ==> m2@ == gm2_mul(m@, gm2_shear_y(s@))),
            self.state is Err ==> r.state == self.state,
            r.state is Err ==> self.state is Err || r.state == Err::<Matrix2, NumericError>(
                NumericError::Overflow,
            ),
    {
        self.step(Ok(Matrix2::shear_y(s)))
    }

    /// The accumulated matrix, or the first failure.
    pub fn build(self) -> (r: Result<Matrix2, NumericError>)
        requires
            self.wf(),
        ensures
            r == self.state,
            r matches Ok(m) ==> m.wf(),
    {
        self.state
    }
}

/// The identity matrix is the multiplicative identity, on both sides.
pub proof fn lemma_unit_mul(m: Gm2)
    requires
        gm2_wf(m),
    ensures
        gm2_eq(gm2_mul(m, gm2_unit()), m),
        gm2_eq(gm2_mul(gm2_unit(), m), m),
{
    let pr = gm2_mul(m, gm2_unit());
    let pl = gm2_mul(gm2_unit(), m);
    assert(pr.e11 == m.e11 && pr.e12 == m.e12 && pr.e21 == m.e21 && pr.e22 == m.e22 && pr.d
        == m.d);
    assert(pl.e11 == m.e11 && pl.e12 == m.e12 && pl.e21 == m.e21 && pl.e22 == m.e22 && pl.d
        == m.d);
}

/// A nonsingular matrix times its exact inverse is the identity.
pub proof fn lemma_mul_inverse_is_unit(m: Gm2)
    requires
        gm2_wf(m),
        gm2_det_n(m) != 0,
    ensures
        gm2_eq(gm2_mul(m, gm2_inv(m)), gm2_unit()),
{
    let a: int = m.e11;
    let b: int = m.e12;
    let c: int = m.e21;
    let e: int = m.e22;
    let w: int = m.d;
    let dt: int = gm2_det_n(m);
    let p = gm2_mul(m, gm2_inv(m));
    if dt >= 0 {
        assert(p.e11 == a * (e * w) + b * (-(c * w)) && p.e12 == a * (-(b * w)) + b * (a * w)
            && p.e21 == c * (e * w) + e * (-(c * w)) && p.e22 == c * (-(b * w)) + e * (a * w)
            && p.d == w * dt);
        assert(a * (e * w) + b * (-(c * w)) == (a * e - b * c) * w) by (nonlinear_arith);
        assert(a * (-(b * w)) + b * (a * w) == 0) by (nonlinear_arith);
        assert(c * (e * w) + e * (-(c * w)) == 0) by (nonlinear_arith);
        assert(c * (-(b * w)) + e * (a * w) == (a * e - b * c) * w) by (nonlinear_arith);
        assert((a * e - b * c) * w * 1 == 1 * (w * dt)) by (nonlinear_arith)
            requires
                dt == a * e - b * c;
        assert(p.e11 * 1 == 1 * p.d);
        assert(p.e12 * 1 == 0 * p.d);
        assert(p.e21 * 1 == 0 * p.d);
        assert(p.e22 * 1 == 1 * p.d);
    } else {
        assert(p.e11 == a * (-(e * w)) + b * (c * w) && p.e12 == a * (b * w) + b * (-(a * w))
            && p.e21 == c * (-(e * w)) + e * (c * w) && p.e22 == c * (b * w) + e * (-(a * w))
            && p.d == w * -dt);
        assert(a * (-(e * w)) + b * (c * w) == -((a * e - b * c) * w)) by (nonlinear_arith);
        assert(a * (b * w) + b * (-(a * w)) == 0) by (nonlinear_arith);
        assert(c * (-(e * w)) + e * (c * w) == 0) by (nonlinear_arith);
        assert(c * (b * w) + e * (-(a * w)) == -((a * e - b * c) * w)) by (nonlinear_arith);
        assert(-((a * e - b * c) * w) * 1 == 1 * (w * -dt)) by (nonlinear_arith)
            requires
                dt == a * e - b * c;
        assert(p.e11 * 1 == 1 * p.d);
        assert(p.e12 * 1 == 0 * p.d);
        assert(p.e21 * 1 == 0 * p.d);
        assert(p.e22 * 1 == 1 * p.d);
    }
}

/// Inverting twice gives back the original matrix, for any nonsingular
/// matrix.
pub proof fn lemma_inverse_involution(m: Gm2)
    requires
        gm2_wf(m),
        gm2_det_n(m) != 0,
    ensures
        gm2_wf(gm2_inv(m)),
        gm2_det_n(gm2_inv(m)) != 0,
        gm2_eq(gm2_inv(gm2_inv(m)), m),
{
    let a: int = m.e11;
    let b: int = m.e12;
    let c: int = m.e21;
    let e: int = m.e22;
    let w: int = m.d;
    let dt: int = gm2_det_n(m);
    let i = gm2_inv(m);
    if dt >= 0 {
        assert(i.e11 == e * w && i.e12 == -(b * w) && i.e21 == -(c * w) && i.e22 == a * w && i.d
            == dt);
        assert(gm2_det_n(i) == (e * w) * (a * w) - (-(b * w)) * (-(c * w)));
        assert((e * w) * (a * w) == (w * w) * (a * e)) by (nonlinear_arith);
        assert((-(b * w)) * (-(c * w)) == (w * w) * (b * c)) by (nonlinear_arith);
        assert((w * w) * (a * e) - (w * w) * (b * c) == (w * w) * (a * e - b * c))
            by (nonlinear_arith);
        assert((w * w) * dt > 0) by (nonlinear_arith)
            requires
                w >= 1,
                dt > 0;
        let ii = gm2_inv(i);
        assert(ii.e11 == (a * w) * dt && ii.e12 == -(-(b * w) * dt) && ii.e21 == -(-(c * w) * dt)
            && ii.e22 == (e * w) * dt && ii.d == (w * w) * (a * e - b * c));
        assert((a * w) * dt * w == a * ((w * w) * dt)) by (nonlinear_arith);
        assert(-(-(b * w) * dt) * w == b * ((w * w) * dt)) by (nonlinear_arith);
        assert(-(-(c * w) * dt) * w == c * ((w * w) * dt)) by (nonlinear_arith);
        assert((e * w) * dt * w == e * ((w * w) * dt)) by (nonlinear_arith);
        assert(gm2_eq(ii, m)) by {
            assert(ii.d == (w * w) * dt);
        }
    } else {
        assert(i.e11 == -(e * w) && i.e12 == b * w && i.e21 == c * w && i.e22 == -(a * w) && i.d
            == -dt);
        assert(gm2_det_n(i) == (-(e * w)) * (-(a * w)) - (b * w) * (c * w));
        assert((-(e * w)) * (-(a * w)) == (w * w) * (a * e)) by (nonlinear_arith);
        assert((b * w) * (c * w) == (w * w) * (b * c)) by (nonlinear_arith);
        assert((w * w) * (a * e) - (w * w) * (b * c) == (w * w) * (a * e - b * c))
            by (nonlinear_arith);
        assert((w * w) * dt < 0) by (nonlinear_arith)
            requires
                w >= 1,
                dt < 0;
        let ii = gm2_inv(i);
        assert(ii.e11 == -((-(a * w)) * (-dt)) && ii.e12 == (b * w) * (-dt) && ii.e21 == (c * w)
            * (-dt) && ii.e22 == -((-(e * w)) * (-dt)) && ii.d == -((w * w) * (a * e - b * c)));
        assert(-((-(a * w)) * (-dt)) * w == a * (-((w * w) * dt))) by (nonlinear_arith);
        assert((b * w) * (-dt) * w == b * (-((w * w) * dt))) by (nonlinear_arith);
        assert((c * w) * (-dt) * w == c * (-((w * w) * dt))) by (nonlinear_arith);
        assert(-((-(e * w)) * (-dt)) * w == e * (-((w * w) * dt))) by (nonlinear_arith);
        assert(gm2_eq(ii, m)) by {
            assert(ii.d == -((w * w) * dt));
        }
    }
}

} // verus!
