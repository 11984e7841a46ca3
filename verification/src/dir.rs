//! Exact rotation state.
//!
//! A rotation is held as the pair of its cosine and sine, each an exact
//! rational scalar. Composing two rotations (adding their angles) is the
//! complex product of the pairs, which the angle-sum formulas make exact:
//! no trigonometric evaluation is ever needed inside the core. Quarter
//! turns have exact pairs; an arbitrary angle is approximated by a
//! rational pair once, outside the core, and composed exactly from then
//! on.

use vstd::prelude::*;

use crate::error::NumericError;
use crate::rat::{
    frac_add, frac_eq, frac_fits, frac_from_int, frac_mul, frac_neg, frac_sub, Frac, Rat,
};

verus! {

/// A rotation, as the exact pair `(cos, sin)` of its angle.
#[derive(Clone, Copy, Debug)]
pub struct Dir {
    pub c: Rat,
    pub s: Rat,
}

/// Cosine of the sum of the two angles: `c1*c2 - s1*s2`.
pub open spec fn dir_cos(a: Dir, b: Dir) -> Frac {
    frac_sub(frac_mul(a.c@, b.c@), frac_mul(a.s@, b.s@))
}

/// Sine of the sum of the two angles: `s1*c2 + c1*s2`.
pub open spec fn dir_sin(a: Dir, b: Dir) -> Frac {
    frac_add(frac_mul(a.s@, b.c@), frac_mul(a.c@, b.s@))
}

impl Dir {
    pub open spec fn wf(self) -> bool {
        self.c.wf() && self.s.wf()
    }

    /// The zero rotation: `(1, 0)`.
    pub open spec fn is_identity(self) -> bool {
        frac_eq(self.c@, frac_from_int(1)) && frac_eq(self.s@, frac_from_int(0))
    }

    /// The zero rotation.
    pub fn identity() -> (r: Dir)
        ensures
            r.wf(),
            r.c@ == frac_from_int(1),
            r.s@ == frac_from_int(0),
            r.is_identity(),
    {
        Dir { c: Rat::one(), s: Rat::zero() }
    }

    /// A quarter turn counter-clockwise: `(0, 1)`.
    pub fn quarter_turn() -> (r: Dir)
        ensures
            r.wf(),
            r.c@ == frac_from_int(0),
            r.s@ == frac_from_int(1),
    {
        Dir { c: Rat::zero(), s: Rat::one() }
    }

    /// A half turn: `(-1, 0)`.
    pub fn half_turn() -> (r: Dir)
        ensures
            r.wf(),
            r.c@ == frac_from_int(-1),
            r.s@ == frac_from_int(0),
    {
        Dir { c: Rat::from_int(-1), s: Rat::zero() }
    }

    /// A rotation from an explicit cosine/sine pair.
    pub fn new(c: Rat, s: Rat) -> (r: Dir)
        requires
            c.wf(),
            s.wf(),
        ensures
            r.wf(),
            r.c == c,
            r.s == s,
    {
        Dir { c, s }
    }

    /// The opposite rotation (the conjugate pair); always exact.
    pub fn invert(self) -> (r: Dir)
        requires
            self.wf(),
        ensures
            r.wf(),
            r.c == self.c,
            r.s@ == frac_neg(self.s@),
    {
        Dir { c: self.c, s: self.s.neg() }
    }

    /// The rotation by the sum of the two angles, by the angle-sum
    /// formulas. `Ok` exactly when every exact intermediate fits the
    /// representation.
    pub fn compose(self, rhs: Dir) -> (r: Result<Dir, NumericError>)
        requires
            self.wf(),
            rhs.wf(),
        ensures
            r matches Ok(v) ==> v.wf() && v.c@ == dir_cos(self, rhs) && v.s@ == dir_sin(
                self,
                rhs,
            ),
            frac_fits(frac_mul(self.c@, rhs.c@)) && frac_fits(frac_mul(self.s@, rhs.s@))
                && frac_fits(frac_mul(self.s@, rhs.c@)) && frac_fits(frac_mul(self.c@, rhs.s@))
                && frac_fits(dir_cos(self, rhs)) && frac_fits(dir_sin(self, rhs)) ==> r is Ok,
            r is Err ==> r == Err::<Dir, NumericError>(NumericError::Overflow),
    {
        let cc = self.c.mul(rhs.c)?;
        let ss = self.s.mul(rhs.s)?;
        let sc = self.s.mul(rhs.c)?;
        let cs = self.c.mul(rhs.s)?;
        let c = cc.sub(ss)?;
        let s = sc.add(cs)?;
        Ok(Dir { c, s })
    }
}

} // verus!
