//! Exact rational scalars.
//!
//! Every quantity in the geometric core is a rational number held as a
//! 64-bit numerator over a positive 64-bit denominator. Arithmetic is
//! performed exactly in 128-bit intermediates; a result whose exact value
//! does not fit the representation is reported as an overflow, never
//! silently truncated. The mathematical model of a scalar is [`Frac`], an
//! unbounded numerator/denominator pair, and every operation's contract
//! pins its result to the corresponding exact operation on [`Frac`].

use vstd::prelude::*;

use vstd::arithmetic::div_mod::lemma_fundamental_div_mod;

use crate::error::NumericError;

verus! {

/// Mathematical model of a rational scalar: an unbounded fraction.
///
/// Two fractions denote the same rational number when they cross-multiply
/// equally; see [`frac_eq`].
pub ghost struct Frac {
    pub n: int,
    pub d: int,
}

/// A well-formed fraction keeps its denominator positive.
pub open spec fn frac_wf(a: Frac) -> bool {
    a.d >= 1
}

/// `a` and `b` denote the same rational number.
pub open spec fn frac_eq(a: Frac, b: Frac) -> bool {
    a.n * b.d == b.n * a.d
}

/// `a <= b` as rational numbers (meaningful for positive denominators).
pub open spec fn frac_le(a: Frac, b: Frac) -> bool {
    a.n * b.d <= b.n * a.d
}

/// `a < b` as rational numbers (meaningful for positive denominators).
pub open spec fn frac_lt(a: Frac, b: Frac) -> bool {
    a.n * b.d < b.n * a.d
}

pub open spec fn frac_from_int(n: int) -> Frac {
    Frac { n: n, d: 1 }
}

pub open spec fn frac_add(a: Frac, b: Frac) -> Frac {
    Frac { n: a.n * b.d + b.n * a.d, d: a.d * b.d }
}

pub open spec fn frac_sub(a: Frac, b: Frac) -> Frac {
    Frac { n: a.n * b.d - b.n * a.d, d: a.d * b.d }
}

pub open spec fn frac_neg(a: Frac) -> Frac {
    Frac { n: -a.n, d: a.d }
}

pub open spec fn frac_mul(a: Frac, b: Frac) -> Frac {
    Frac { n: a.n * b.n, d: a.d * b.d }
}

/// The reciprocal, with the sign moved into the numerator so that the
/// denominator stays positive.
pub open spec fn frac_recip(a: Frac) -> Frac {
    if a.n >= 0 {
        Frac { n: a.d, d: a.n }
    } else {
        Frac { n: -a.d, d: -a.n }
    }
}

pub open spec fn frac_div(a: Frac, b: Frac) -> Frac {
    frac_mul(a, frac_recip(b))
}

/// A numerator fits the representation when its magnitude is at most
/// `i64::MAX` (the value `i64::MIN` is excluded so negation stays total).
pub open spec fn fits_num(x: int) -> bool {
    -(i64::MAX as int) <= x <= i64::MAX as int
}

/// A denominator fits the representation when it is positive and at most
/// `i64::MAX`.
pub open spec fn fits_den(x: int) -> bool {
    1 <= x <= i64::MAX as int
}

pub open spec fn frac_fits(a: Frac) -> bool {
    fits_num(a.n) && fits_den(a.d)
}

/// The least integer at least as large as `f` (for a positive
/// denominator): integer ceiling division.
pub open spec fn frac_ceil(f: Frac) -> int {
    if f.n >= 0 {
        (f.n + f.d - 1) / f.d
    } else {
        -((-f.n) / f.d)
    }
}

/// The nonnegative integer square root of a perfect square (arbitrary
/// when `p` is no square).
pub open spec fn nat_sqrt(p: int) -> int {
    choose|k: int| 0 <= k && #[trigger] (k * k) == p
}

/// Bounds on the 128-bit intermediates of a single rational operation on
/// well-formed 64-bit operands: every product of a numerator and a
/// denominator, the sum or difference of two such products, and the
/// product of the two denominators stay strictly inside the 128-bit range.
proof fn lemma_op_bounds(a: int, b: int, c: int, d: int)
    by (nonlinear_arith)
    requires
        -0x8000_0000_0000_0000 < a < 0x8000_0000_0000_0000,
        0 < b < 0x8000_0000_0000_0000,
        -0x8000_0000_0000_0000 < c < 0x8000_0000_0000_0000,
        0 < d < 0x8000_0000_0000_0000,
    ensures
        -0x4000_0000_0000_0000_0000_0000_0000_0000 < a * d
            < 0x4000_0000_0000_0000_0000_0000_0000_0000,
        -0x4000_0000_0000_0000_0000_0000_0000_0000 < c * b
            < 0x4000_0000_0000_0000_0000_0000_0000_0000,
        -0x4000_0000_0000_0000_0000_0000_0000_0000 < a * c
            < 0x4000_0000_0000_0000_0000_0000_0000_0000,
        1 <= b * d < 0x4000_0000_0000_0000_0000_0000_0000_0000,
{
}

/// Equal rationals are equal in both directions.
pub proof fn lemma_frac_eq_sym(a: Frac, b: Frac)
    requires
        frac_eq(a, b),
    ensures
        frac_eq(b, a),
{
}

/// Denoting the same rational number is transitive (for nonzero
/// denominators).
pub proof fn lemma_frac_eq_trans(a: Frac, b: Frac, c: Frac)
    by (nonlinear_arith)
    requires
        b.d != 0,
        frac_eq(a, b),
        frac_eq(b, c),
    ensures
        frac_eq(a, c),
{
}

/// An exact rational scalar: `num / den` with `den >= 1`.
#[derive(Clone, Copy, Debug)]
pub struct Rat {
    pub num: i64,
    pub den: i64,
}

impl View for Rat {
    type V = Frac;

    open spec fn view(&self) -> Frac {
        Frac { n: self.num as int, d: self.den as int }
    }
}

impl Rat {
    /// Well-formed: positive denominator, and a numerator whose negation
    /// also fits, so that negation never overflows.
    pub open spec fn wf(self) -> bool {
        self.den >= 1 && self.num > i64::MIN
    }

    /// The rational with value `n`.
    pub fn from_int(n: i64) -> (r: Rat)
        requires
            n > i64::MIN,
        ensures
            r.wf(),
            r@ == frac_from_int(n as int),
    {
        Rat { num: n, den: 1 }
    }

    /// The rational zero.
    pub fn zero() -> (r: Rat)
        ensures
            r.wf(),
            r@ == frac_from_int(0),
    {
        Rat { num: 0, den: 1 }
    }

    /// The rational one.
    pub fn one() -> (r: Rat)
        ensures
            r.wf(),
            r@ == frac_from_int(1),
    {
        Rat { num: 1, den: 1 }
    }

    /// The rational `num / den`, with the sign moved into the numerator.
    ///
    /// Fails with `DivisionByZero` when `den` is zero, and with `Overflow`
    /// when a component is `i64::MIN` (whose negation does not fit).
    pub fn new(num: i64, den: i64) -> (r: Result<Rat, NumericError>)
        ensures
            den != 0 && num != i64::MIN && den != i64::MIN ==> (r matches Ok(v) && v.wf()
                && frac_eq(v@, Frac { n: num as int, d: den as int })),
            den == 0 ==> r == Err::<Rat, NumericError>(NumericError::DivisionByZero),
            den != 0 && (num == i64::MIN || den == i64::MIN) ==> r == Err::<Rat, NumericError>(
                NumericError::Overflow,
            ),
    {
        if den == 0 {
            Err(NumericError::DivisionByZero)
        } else if num == i64::MIN || den == i64::MIN {
            Err(NumericError::Overflow)
        } else if den < 0 {
            proof {
                assert((-(num as int)) * (den as int) == (num as int) * (-(den as int)))
                    by (nonlinear_arith);
            }
            Ok(Rat { num: -num, den: -den })
        } else {
            Ok(Rat { num, den })
        }
    }

    /// True exactly when the scalar is zero.
    pub fn is_zero(&self) -> (r: bool)
        requires
            self.wf(),
        ensures
            r == frac_eq(self@, frac_from_int(0)),
    {
        self.num == 0
    }

    /// Exact negation; total on well-formed scalars.
    pub fn neg(self) -> (r: Rat)
        requires
            self.wf(),
        ensures
            r.wf(),
            r@ == frac_neg(self@),
    {
        Rat { num: -self.num, den: self.den }
    }

    /// Exact sum. `Ok` exactly when the exact result fits the
    /// representation.
    pub fn add(self, rhs: Rat) -> (r: Result<Rat, NumericError>)
        requires
            self.wf(),
            rhs.wf(),
        ensures
            frac_fits(frac_add(self@, rhs@)) ==> (r matches Ok(v) && v.wf() && v@ == frac_add(
                self@,
                rhs@,
            )),
            !frac_fits(frac_add(self@, rhs@)) ==> r == Err::<Rat, NumericError>(
                NumericError::Overflow,
            ),
    {
        let a: i128 = self.num as i128;
        let b: i128 = self.den as i128;
        let c: i128 = rhs.num as i128;
        let d: i128 = rhs.den as i128;
        proof {
            lemma_op_bounds(a as int, b as int, c as int, d as int);
        }
        let n: i128 = a * d + c * b;
        let dd: i128 = b * d;
        if n >= -(i64::MAX as i128) && n <= i64::MAX as i128 && dd <= i64::MAX as i128 {
            Ok(Rat { num: n as i64, den: dd as i64 })
        } else {
            Err(NumericError::Overflow)
        }
    }

    /// Exact difference. `Ok` exactly when the exact result fits the
    /// representation.
    pub fn sub(self, rhs: Rat) -> (r: Result<Rat, NumericError>)
        requires
            self.wf(),
            rhs.wf(),
        ensures
            frac_fits(frac_sub(self@, rhs@)) ==> (r matches Ok(v) && v.wf() && v@ == frac_sub(
                self@,
                rhs@,
            )),
            !frac_fits(frac_sub(self@, rhs@)) ==> r == Err::<Rat, NumericError>(
                NumericError::Overflow,
            ),
    {
        let a: i128 = self.num as i128;
        let b: i128 = self.den as i128;
        let c: i128 = rhs.num as i128;
        let d: i128 = rhs.den as i128;
        proof {
            lemma_op_bounds(a as int, b as int, c as int, d as int);
        }
        let n: i128 = a * d - c * b;
        let dd: i128 = b * d;
        if n >= -(i64::MAX as i128) && n <= i64::MAX as i128 && dd <= i64::MAX as i128 {
            Ok(Rat { num: n as i64, den: dd as i64 })
        } else {
            Err(NumericError::Overflow)
        }
    }

    /// Exact product. `Ok` exactly when the exact result fits the
    /// representation.
    pub fn mul(self, rhs: Rat) -> (r: Result<Rat, NumericError>)
        requires
            self.wf(),
            rhs.wf(),
        ensures
            frac_fits(frac_mul(self@, rhs@)) ==> (r matches Ok(v) && v.wf() && v@ == frac_mul(
                self@,
                rhs@,
            )),
            !frac_fits(frac_mul(self@, rhs@)) ==> r == Err::<Rat, NumericError>(
                NumericError::Overflow,
            ),
    {
        let a: i128 = self.num as i128;
        let b: i128 = self.den as i128;
        let c: i128 = rhs.num as i128;
        let d: i128 = rhs.den as i128;
        proof {
            lemma_op_bounds(a as int, b as int, c as int, d as int);
        }
        let n: i128 = a * c;
        let dd: i128 = b * d;
        if n >= -(i64::MAX as i128) && n <= i64::MAX as i128 && dd <= i64::MAX as i128 {
            Ok(Rat { num: n as i64, den: dd as i64 })
        } else {
            Err(NumericError::Overflow)
        }
    }

    /// Exact reciprocal; fails only on zero.
    pub fn recip(self) -> (r: Result<Rat, NumericError>)
        requires
            self.wf(),
        ensures
            self.num != 0 ==> (r matches Ok(v) && v.wf() && v@ == frac_recip(self@)),
            self.num == 0 ==> r == Err::<Rat, NumericError>(NumericError::DivisionByZero),
    {
        if self.num == 0 {
            Err(NumericError::DivisionByZero)
        } else if self.num > 0 {
            Ok(Rat { num: self.den, den: self.num })
        } else {
            Ok(Rat { num: -self.den, den: -self.num })
        }
    }

    /// Exact quotient: `DivisionByZero` on a zero divisor, `Overflow` when
    /// the exact result does not fit, the exact value otherwise.
    pub fn div(self, rhs: Rat) -> (r: Result<Rat, NumericError>)
        requires
            self.wf(),
            rhs.wf(),
        ensures
            rhs.num == 0 ==> r == Err::<Rat, NumericError>(NumericError::DivisionByZero),
            rhs.num != 0 && frac_fits(frac_div(self@, rhs@)) ==> (r matches Ok(v) && v.wf() && v@
                == frac_div(self@, rhs@)),
            rhs.num != 0 && !frac_fits(frac_div(self@, rhs@)) ==> r == Err::<Rat, NumericError>(
                NumericError::Overflow,
            ),
    {
        match rhs.recip() {
            Ok(inv) => self.mul(inv),
            Err(e) => Err(e),
        }
    }

    /// Exact order test: `self <= rhs`.
    pub fn le(&self, rhs: &Rat) -> (r: bool)
        requires
            self.wf(),
            rhs.wf(),
        ensures
            r == frac_le(self@, rhs@),
    {
        let a: i128 = self.num as i128;
        let b: i128 = self.den as i128;
        let c: i128 = rhs.num as i128;
        let d: i128 = rhs.den as i128;
        proof {
            lemma_op_bounds(a as int, b as int, c as int, d as int);
        }
        a * d <= c * b
    }

    /// Exact order test: `self < rhs`.
    pub fn lt(&self, rhs: &Rat) -> (r: bool)
        requires
            self.wf(),
            rhs.wf(),
        ensures
            r == frac_lt(self@, rhs@),
    {
        !rhs.le(self)
    }

    /// The least integer at least as large as the value (the exact
    /// ceiling); always representable for a well-formed scalar.
    pub fn ceil_i64(&self) -> (r: i64)
        requires
            self.wf(),
        ensures
            r > i64::MIN,
            r as int == frac_ceil(self@),
            self@.d * (r as int) >= self@.n,
            self@.d * ((r as int) - 1) < self@.n,
    {
        let d: u128 = self.den as u128;
        if self.num >= 0 {
            let a: u128 = self.num as u128;
            let t: u128 = a + d - 1;
            let q: u128 = t / d;
            let ghost rr: int = (t as int) % (d as int);
            proof {
                lemma_fundamental_div_mod(t as int, d as int);
                assert(q <= a) by (nonlinear_arith)
                    requires
                        (t as int) == (d as int) * (q as int) + rr,
                        (t as int) == a + d - 1,
                        0 <= rr < (d as int),
                        d >= 1,
                        a >= 0,
                        q >= 0;
                assert(self@.d * ((q as int) - 1) == (d as int) * (q as int) - (d as int))
                    by (nonlinear_arith)
                    requires
                        self@.d == d as int;
            }
            q as i64
        } else {
            let a: u128 = (-self.num) as u128;
            let q: u128 = a / d;
            let ghost rr: int = (a as int) % (d as int);
            proof {
                lemma_fundamental_div_mod(a as int, d as int);
                assert(q <= a) by (nonlinear_arith)
                    requires
                        (a as int) == (d as int) * (q as int) + rr,
                        0 <= rr < (d as int),
                        d >= 1,
                        q >= 0;
                assert((self@.d) * (-(q as int)) >= self@.n && (self@.d) * ((-(q as int)) - 1)
                    < self@.n) by (nonlinear_arith)
                    requires
                        (a as int) == (self@.d) * (q as int) + rr,
                        0 <= rr < self@.d,
                        self@.d >= 1,
                        self@.n == -(a as int);
            }
            -(q as i64)
        }
    }

    /// Exact value equality (independent of the representation chosen).
    pub fn eq_rat(&self, rhs: &Rat) -> (r: bool)
        requires
            self.wf(),
            rhs.wf(),
        ensures
            r == frac_eq(self@, rhs@),
    {
        self.le(rhs) && rhs.le(self)
    }

    /// The exact nonnegative square root, when the value has one in the
    /// rationals representable here; `NotRepresentable` on a negative
    /// value or when `num * den` is not a perfect square (in which case
    /// the root is irrational).
    pub fn sqrt(self) -> (r: Result<Rat, NumericError>)
        requires
            self.wf(),
        ensures
            r matches Ok(v) ==> v.wf() && 0 <= v@.n && frac_eq(frac_mul(v@, v@), self@) && v@
                == (Frac { n: nat_sqrt(self@.n * self@.d), d: self@.d }),
            self@.n < 0 ==> r == Err::<Rat, NumericError>(NumericError::NotRepresentable),
            self@.n >= 0 && (exists|k: int| #[trigger] (k * k) == self@.n * self@.d) ==> r is Ok,
            r is Err ==> r == Err::<Rat, NumericError>(NumericError::NotRepresentable),
    {
        if self.num < 0 {
            return Err(NumericError::NotRepresentable);
        }
        let ghost gn: int = self@.n;
        let ghost gd: int = self@.d;
        proof {
            assert(0 <= gn * gd <= 0x4000_0000_0000_0000_0000_0000_0000_0000) by (nonlinear_arith)
                requires
                    0 <= gn < 0x8000_0000_0000_0000,
                    1 <= gd < 0x8000_0000_0000_0000;
        }
        let p: u128 = (self.num as u128) * (self.den as u128);
        let k: u128 = isqrt_u128(p);
        if k <= i64::MAX as u128 && k * k == p {
            proof {
                assert((k as int) * (k as int) * gd == gn * (gd * gd)) by (nonlinear_arith)
                    requires
                        (k as int) * (k as int) == gn * gd;
                let kc: int = nat_sqrt(gn * gd);
                assert(0 <= kc && kc * kc == gn * gd);
                assert(kc == k as int) by (nonlinear_arith)
                    requires
                        0 <= kc,
                        kc * kc == gn * gd,
                        0 <= k as int,
                        (k as int) * (k as int) == gn * gd;
            }
            Ok(Rat { num: k as i64, den: self.den })
        } else {
            proof {
                if k > i64::MAX as u128 {
                    assert((k as int) * (k as int) > gn * gd) by (nonlinear_arith)
                        requires
                            k > 0x7fff_ffff_ffff_ffff,
                            0 <= gn < 0x8000_0000_0000_0000,
                            1 <= gd < 0x8000_0000_0000_0000;
                    assert(false);
                }
                assert forall|j: int| #[trigger] (j * j) != gn * gd by {
                    let ki: int = k as int;
                    let a: int = if j >= 0 {
                        j
                    } else {
                        -j
                    };
                    assert(a * a == j * j) by (nonlinear_arith)
                        requires
                            a == j || a == -j;
                    if a <= ki {
                        assert(a * a <= ki * ki) by (nonlinear_arith)
                            requires
                                0 <= a <= ki;
                    } else {
                        assert(a * a >= (ki + 1) * (ki + 1)) by (nonlinear_arith)
                            requires
                                0 <= ki + 1 <= a;
                    }
                }
            }
            Err(NumericError::NotRepresentable)
        }
    }
}

/// The integer square root: the greatest `r` with `r * r <= p`.
pub fn isqrt_u128(p: u128) -> (r: u128)
    ensures
        (r as int) * (r as int) <= p as int,
        ((r as int) + 1) * ((r as int) + 1) > p as int,
{
    if p == 0 {
        return 0u128;
    }
    let mut lo: u128 = 0;
    let mut hi: u128 = 0x1_0000_0000_0000_0000;
    proof {
        assert((hi as int) * (hi as int) > p as int) by (nonlinear_arith)
            requires
                hi == 0x1_0000_0000_0000_0000,
                (p as int) < 0x1_0000_0000_0000_0000_0000_0000_0000_0000;
    }
    while hi - lo > 1
        invariant
            lo < hi,
            hi <= 0x1_0000_0000_0000_0000,
            (lo as int) * (lo as int) <= p as int,
            (hi as int) * (hi as int) > p as int,
        decreases hi - lo,
    {
        let mid: u128 = lo + (hi - lo) / 2;
        proof {
            assert((mid as int) * (mid as int) < 0x1_0000_0000_0000_0000_0000_0000_0000_0000)
                by (nonlinear_arith)
                requires
                    mid < 0x1_0000_0000_0000_0000;
        }
        if mid * mid <= p {
            lo = mid;
        } else {
            hi = mid;
        }
    }
    lo
}

} // verus!
