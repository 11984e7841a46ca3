//! Exact decimal rendering of scalars, and the path-data mini-language.
//!
//! A rational is rendered as an optional sign, the decimal digits of the
//! integer part, and, when the value is not an integer, a point followed
//! by up to nine fraction digits produced by long division (the digits
//! stop early when the expansion terminates, so a terminating value is
//! rendered exactly, with no trailing zeros). Corner lists are rendered
//! in the path mini-language `M x,y L x,y ... z`: coordinate pairs are
//! comma-separated, commands space-separated.

use vstd::prelude::*;

use vstd::arithmetic::div_mod::lemma_fundamental_div_mod;

use crate::coordinate::Coordinate;
use crate::error::PreconditionError;
use crate::matrix3::{Gm3, Matrix3};
use crate::rat::{Frac, Rat};

verus! {

/// The decimal digit character for `d` (meaningful for `0 <= d <= 9`).
pub open spec fn digit_char(d: int) -> char {
    if d == 0 {
        '0'
    } else if d == 1 {
        '1'
    } else if d == 2 {
        '2'
    } else if d == 3 {
        '3'
    } else if d == 4 {
        '4'
    } else if d == 5 {
        '5'
    } else if d == 6 {
        '6'
    } else if d == 7 {
        '7'
    } else if d == 8 {
        '8'
    } else {
        '9'
    }
}

/// The decimal digits of `n`, most significant first.
pub open spec fn dec_digits(n: nat) -> Seq<char>
    decreases n,
{
    if n < 10 {
        seq![digit_char(n as int)]
    } else {
        dec_digits(n / 10).push(digit_char((n % 10) as int))
    }
}

/// Up to `fuel` fraction digits of `rem / den` by long division,
/// stopping when the remainder vanishes (so no trailing zeros appear for
/// a terminating expansion).
pub open spec fn frac_digit_seq(rem: nat, den: nat, fuel: nat) -> Seq<char>
    decreases fuel,
{
    if rem == 0 || fuel == 0 {
        Seq::empty()
    } else {
        seq![digit_char(((rem * 10) / den) as int)] + frac_digit_seq(
            (rem * 10) % den,
            den,
            (fuel - 1) as nat,
        )
    }
}

/// The absolute value.
pub open spec fn abs_int(n: int) -> nat {
    if n >= 0 {
        n as nat
    } else {
        (-n) as nat
    }
}

/// The decimal rendering of the exact rational `f` (with positive
/// denominator): sign, integer digits, and a point with up to nine
/// fraction digits when the value is not an integer.
pub open spec fn rat_str(f: Frac) -> Seq<char> {
    let a = abs_int(f.n);
    let d = f.d as nat;
    let ip = dec_digits(a / d);
    let whole = if f.n < 0 {
        seq!['-'] + ip
    } else {
        ip
    };
    if a % d == 0 {
        whole
    } else {
        whole + seq!['.'] + frac_digit_seq(a % d, d, 9)
    }
}

/// The one-character string for the decimal digit `d`.
fn digit_str(d: u128) -> (r: &'static str)
    requires
        d < 10,
    ensures
        r@ == seq![digit_char(d as int)],
{
    proof {
        reveal_strlit("0");
        reveal_strlit("1");
        reveal_strlit("2");
        reveal_strlit("3");
        reveal_strlit("4");
        reveal_strlit("5");
        reveal_strlit("6");
        reveal_strlit("7");
        reveal_strlit("8");
        reveal_strlit("9");
    }
    let r: &'static str = if d == 0 {
        "0"
    } else if d == 1 {
        "1"
    } else if d == 2 {
        "2"
    } else if d == 3 {
        "3"
    } else if d == 4 {
        "4"
    } else if d == 5 {
        "5"
    } else if d == 6 {
        "6"
    } else if d == 7 {
        "7"
    } else if d == 8 {
        "8"
    } else {
        "9"
    };
    proof {
        assert(r@ =~= seq![digit_char(d as int)]);
    }
    r
}

/// Appends the decimal digits of `n`.
fn push_digits(s: &mut String, n: u128)
    ensures
        final(s)@ == old(s)@ + dec_digits(n as nat),
    decreases n,
{
    if n < 10 {
        s.append(digit_str(n));
    } else {
        push_digits(s, n / 10);
        s.append(digit_str(n % 10));
    }
}

/// Appends up to `fuel` fraction digits of `rem / den` by long
/// division.
fn push_frac_digits(s: &mut String, rem: u128, den: u128, fuel: u64)
    requires
        0 < den <= i64::MAX as u128,
        rem < den,
    ensures
        final(s)@ == old(s)@ + frac_digit_seq(rem as nat, den as nat, fuel as nat),
    decreases fuel,
{
    if rem == 0 || fuel == 0 {
        return ;
    }
    let t: u128 = rem * 10;
    let q: u128 = t / den;
    let r2: u128 = t % den;
    proof {
        lemma_fundamental_div_mod(t as int, den as int);
        assert(q < 10) by (nonlinear_arith)
            requires
                (t as int) == (den as int) * (q as int) + (r2 as int),
                (t as int) < 10 * (den as int),
                0 <= r2,
                den >= 1;
    }
    s.append(digit_str(q));
    push_frac_digits(s, r2, den, fuel - 1);
}

/// The exact decimal rendering of the scalar.
pub fn rat_to_string(v: &Rat) -> (s: String)
    requires
        v.wf(),
    ensures
        s@ == rat_str(v@),
{
    proof {
        reveal_strlit("-");
        reveal_strlit(".");
    }
    let mut s = String::new();
    let a: u128 = if v.num < 0 {
        (-v.num) as u128
    } else {
        v.num as u128
    };
    let den: u128 = v.den as u128;
    if v.num < 0 {
        s.append("-");
        proof {
            assert(s@ =~= Seq::<char>::empty() + seq!['-']);
        }
    }
    let ip: u128 = a / den;
    let rem: u128 = a % den;
    push_digits(&mut s, ip);
    if rem != 0 {
        let ghost before = s@;
        s.append(".");
        proof {
            assert(s@ =~= before + seq!['.']);
        }
        push_frac_digits(&mut s, rem, den, 9);
    }
    proof {
        if v.num < 0 {
            assert((seq!['-'] + dec_digits((a / den) as nat)) =~= (Seq::<char>::empty()
                + seq!['-']) + dec_digits((a / den) as nat));
        }
        assert(s@ =~= rat_str(v@));
    }
    s
}

/// The `M x,y` command for the first corner, with its trailing space.
pub open spec fn move_part(c: Coordinate) -> Seq<char> {
    "M"@ + rat_str(c.x@) + ","@ + rat_str(c.y@) + " "@
}

/// One `L x,y` command, with its trailing space.
pub open spec fn line_part(c: Coordinate) -> Seq<char> {
    "L"@ + rat_str(c.x@) + ","@ + rat_str(c.y@) + " "@
}

/// The path commands for the first `i` corners.
pub open spec fn path_prefix(s: Seq<Coordinate>, i: int) -> Seq<char>
    decreases i,
{
    if i <= 1 {
        move_part(s[0])
    } else {
        path_prefix(s, i - 1) + line_part(s[i - 1])
    }
}

/// The whole path-data string for a corner list: a move, a line per
/// further corner, and a close command.
pub open spec fn path_data_str(s: Seq<Coordinate>) -> Seq<char> {
    path_prefix(s, s.len() as int) + "z"@
}

/// Renders a corner list as an open polyline: `M x,y L x,y ...` with a
/// trailing space and no closing command; rejects an empty list.
pub fn polyline_data(points: &Vec<Coordinate>) -> (r: Result<String, PreconditionError>)
    requires
        forall|i: int| 0 <= i < points@.len() ==> (#[trigger] points@[i]).wf(),
    ensures
        points@.len() == 0 ==> r == Err::<String, PreconditionError>(
            PreconditionError::TooFewPoints,
        ),
        points@.len() >= 1 ==> (r matches Ok(s) && s@ == path_prefix(
            points@,
            points@.len() as int,
        )),
{
    if points.len() == 0 {
        return Err(PreconditionError::TooFewPoints);
    }
    let mut s = String::new();
    s.append("M");
    let first = points[0];
    let sx = rat_to_string(&first.x);
    s.append(sx.as_str());
    s.append(",");
    let sy = rat_to_string(&first.y);
    s.append(sy.as_str());
    s.append(" ");
    proof {
        assert(s@ =~= move_part(points@[0]));
    }
    let mut i: usize = 1;
    while i < points.len()
        invariant
            1 <= i <= points@.len(),
            forall|j: int| 0 <= j < points@.len() ==> (#[trigger] points@[j]).wf(),
            s@ == path_prefix(points@, i as int),
        decreases points@.len() - i,
    {
        let c = points[i];
        s.append("L");
        let cx = rat_to_string(&c.x);
        s.append(cx.as_str());
        s.append(",");
        let cy = rat_to_string(&c.y);
        s.append(cy.as_str());
        s.append(" ");
        proof {
            assert(s@ =~= path_prefix(points@, i as int) + line_part(points@[i as int]));
        }
        i = i + 1;
    }
    Ok(s)
}

/// Renders a corner list in the closed path mini-language
/// `M x,y L x,y ... z`; rejects an empty list.
pub fn path_data(points: &Vec<Coordinate>) -> (r: Result<String, PreconditionError>)
    requires
        forall|i: int| 0 <= i < points@.len() ==> (#[trigger] points@[i]).wf(),
    ensures
        points@.len() == 0 ==> r == Err::<String, PreconditionError>(
            PreconditionError::TooFewPoints,
        ),
        points@.len() >= 1 ==> (r matches Ok(s) && s@ == path_data_str(points@)),
{
    let mut s = polyline_data(points)?;
    s.append("z");
    Ok(s)
}

/// The group transform attribute: the frame's position as a
/// translation, then its linear map as the six-number matrix form, in
/// row order.
pub open spec fn transform_str(c: Coordinate, m: Gm3) -> Seq<char> {
    "translate("@ + rat_str(c.x@) + " "@ + rat_str(c.y@) + ") matrix("@ + rat_str(
        Frac { n: m.e11, d: m.d },
    ) + " "@ + rat_str(Frac { n: m.e12, d: m.d }) + " "@ + rat_str(Frac { n: m.e21, d: m.d })
        + " "@ + rat_str(Frac { n: m.e22, d: m.d }) + " "@ + rat_str(Frac { n: m.e31, d: m.d })
        + " "@ + rat_str(Frac { n: m.e32, d: m.d }) + ")"@
}

/// Renders the group transform attribute for a frame placed at `loc`
/// with the linear map `m`.
pub fn transform_attr(loc: &Coordinate, m: &Matrix3) -> (s: String)
    requires
        loc.wf(),
        m.wf(),
    ensures
        s@ == transform_str(*loc, m@),
{
    let mut s = String::new();
    s.append("translate(");
    let t = rat_to_string(&loc.x);
    s.append(t.as_str());
    s.append(" ");
    let t = rat_to_string(&loc.y);
    s.append(t.as_str());
    s.append(") matrix(");
    let t = rat_to_string(&Rat { num: m.n11, den: m.den });
    s.append(t.as_str());
    s.append(" ");
    let t = rat_to_string(&Rat { num: m.n12, den: m.den });
    s.append(t.as_str());
    s.append(" ");
    let t = rat_to_string(&Rat { num: m.n21, den: m.den });
    s.append(t.as_str());
    s.append(" ");
    let t = rat_to_string(&Rat { num: m.n22, den: m.den });
    s.append(t.as_str());
    s.append(" ");
    let t = rat_to_string(&Rat { num: m.n31, den: m.den });
    s.append(t.as_str());
    s.append(" ");
    let t = rat_to_string(&Rat { num: m.n32, den: m.den });
    s.append(t.as_str());
    s.append(")");
    proof {
        assert(s@ =~= transform_str(*loc, m@));
    }
    s
}

/// Four scalars joined by single spaces (the shape of a view-box
/// attribute).
pub open spec fn quad_str(a: Frac, b: Frac, c: Frac, d: Frac) -> Seq<char> {
    rat_str(a) + " "@ + rat_str(b) + " "@ + rat_str(c) + " "@ + rat_str(d)
}

/// Renders four scalars joined by single spaces.
pub fn quad_attr(a: &Rat, b: &Rat, c: &Rat, d: &Rat) -> (s: String)
    requires
        a.wf(),
        b.wf(),
        c.wf(),
        d.wf(),
    ensures
        s@ == quad_str(a@, b@, c@, d@),
{
    let mut s = rat_to_string(a);
    s.append(" ");
    let t = rat_to_string(b);
    s.append(t.as_str());
    s.append(" ");
    let t = rat_to_string(c);
    s.append(t.as_str());
    s.append(" ");
    let t = rat_to_string(d);
    s.append(t.as_str());
    proof {
        assert(s@ =~= quad_str(a@, b@, c@, d@));
    }
    s
}

} // verus!
