use plansvg::coordinate::{Coordinate, Coordinates};
use plansvg::dir::Dir;
use plansvg::error::{Error, NumericError, PreconditionError};
use plansvg::matrix2::Matrix2;
use plansvg::matrix3::Matrix3;
use plansvg::rat::Rat;
use plansvg::vector2::Vector2;
use plansvg::vector3::Vector3;

fn rat(n: i64) -> Rat {
    Rat::from_int(n)
}

fn ratq(n: i64, d: i64) -> Rat {
    Rat::new(n, d).unwrap()
}

fn vec2(x: i64, y: i64) -> Vector2 {
    Vector2::new(rat(x), rat(y))
}

fn coord(x: i64, y: i64) -> Coordinate {
    Coordinate::new(rat(x), rat(y))
}

fn assert_coord_eq(a: &Coordinate, b: &Coordinate) {
    assert!(a.x.eq_rat(&b.x), "x differs: {:?} vs {:?}", a, b);
    assert!(a.y.eq_rat(&b.y), "y differs: {:?} vs {:?}", a, b);
    assert!(a.rot.c.eq_rat(&b.rot.c), "rot cos differs");
    assert!(a.rot.s.eq_rat(&b.rot.s), "rot sin differs");
    assert_eq!(a.fx, b.fx);
    assert_eq!(a.fy, b.fy);
    assert!(a.sx.eq_rat(&b.sx), "sx differs");
    assert!(a.sy.eq_rat(&b.sy), "sy differs");
}

#[test]
fn flip_x() {
    let c = coord(10, 6);
    let d = coord(0, 0).flip_x();
    let e = c.reference_to_world(&d).unwrap();
    assert_coord_eq(&coord(-10, 6), &e);
}

#[test]
fn flip_y() {
    let c = coord(10, 6);
    let d = coord(0, 0).flip_y();
    let e = c.reference_to_world(&d).unwrap();
    assert_coord_eq(&coord(10, -6), &e);
}

#[test]
fn identity() {
    let m = Matrix2::unit();
    assert!(m.inverse().unwrap().eq_mat(&m));
}

#[test]
fn inverse() {
    let m = Matrix2::new(rat(4), rat(3), rat(-1), rat(4)).unwrap();
    assert!(m.inverse().unwrap().inverse().unwrap().eq_mat(&m));
    let det = m.determinant().unwrap();
    let inv_det = m.inverse().unwrap().determinant().unwrap();
    assert!(inv_det.eq_rat(&det.recip().unwrap()));
    assert!(det.eq_rat(&rat(19)));
}

#[test]
fn mul_inverse_is_unit() {
    let m = Matrix2::new(rat(4), rat(3), rat(-1), rat(4)).unwrap();
    let product = m.mul(m.inverse().unwrap()).unwrap();
    assert!(product.eq_mat(&Matrix2::unit()));
}

#[test]
fn singular_inverse_rejected() {
    let m = Matrix2::new(rat(2), rat(4), rat(1), rat(2)).unwrap();
    assert!(matches!(m.inverse(), Err(NumericError::Singular)));
}

#[test]
fn neg() {
    let v = vec2(3, 7);
    let n = v.neg();
    assert!(n.x.eq_rat(&rat(-3)));
    assert!(n.y.eq_rat(&rat(-7)));
}

#[test]
fn length() {
    let v = vec2(-12, 5);
    assert!(v.length().unwrap().eq_rat(&rat(13)));
}

#[test]
fn mul() {
    let v = vec2(4, 0);
    let r = v.mul(rat(3)).unwrap();
    assert!(r.x.eq_rat(&rat(12)));
    assert!(r.y.eq_rat(&rat(0)));
}

#[test]
fn div() {
    let v = vec2(4, 5);
    let r = v.div(rat(2)).unwrap();
    assert!(r.x.eq_rat(&rat(2)));
    assert!(r.y.eq_rat(&ratq(5, 2)));
}

#[test]
fn normalize() {
    let v = vec2(12, 5);
    let r = v.normalize().unwrap();
    assert!(r.x.eq_rat(&ratq(12, 13)));
    assert!(r.y.eq_rat(&ratq(5, 13)));
}

#[test]
fn add() {
    let v1 = vec2(7, -2);
    let v2 = vec2(6, 6);
    let r = v1.add(v2).unwrap();
    assert!(r.x.eq_rat(&rat(13)));
    assert!(r.y.eq_rat(&rat(4)));
}

#[test]
fn sub() {
    let v1 = vec2(3, 10);
    let v2 = vec2(8, -7);
    let r = v1.sub(v2).unwrap();
    assert!(r.x.eq_rat(&rat(-5)));
    assert!(r.y.eq_rat(&rat(17)));
}

#[test]
fn sub2() {
    let v1 = vec2(3, 10);
    let v2 = vec2(8, -7);
    let r = v1.sub(v2.mul(rat(4)).unwrap()).unwrap();
    assert!(r.x.eq_rat(&rat(-29)));
    assert!(r.y.eq_rat(&rat(38)));
}

#[test]
fn distance() {
    // The squared distance is 4^2 + 44^2 = 1952, whose root is
    // irrational: the exact core reports it as not representable.
    let v1 = vec2(10, -14);
    let v2 = vec2(6, 30);
    assert!(matches!(v1.distance(v2), Err(NumericError::NotRepresentable)));
    let d = v2.sub(v1).unwrap();
    assert!(d.dot_product(d).unwrap().eq_rat(&rat(1952)));
}

#[test]
fn dot_product() {
    let v1 = vec2(2, 6);
    let v2 = vec2(-3, 8);
    assert!(v1.dot_product(v2).unwrap().eq_rat(&rat(42)));
}

#[test]
fn perp_dot_product_of_axes() {
    let v1 = vec2(1, 0);
    let v2 = vec2(0, 1);
    assert!(v1.perp_dot_product(v2).unwrap().eq_rat(&rat(1)));
}

#[test]
fn normalize_zero_vector_rejected() {
    assert!(matches!(vec2(0, 0).normalize(), Err(NumericError::ZeroLength)));
}

#[test]
fn vector3_length_and_normalize() {
    let v = Vector3::new(rat(0), rat(3), rat(4));
    assert!(v.length().unwrap().eq_rat(&rat(5)));
    let n = v.normalize().unwrap();
    assert!(n.x.eq_rat(&rat(0)));
    assert!(n.y.eq_rat(&ratq(3, 5)));
    assert!(n.z.eq_rat(&ratq(4, 5)));
}

#[test]
fn axis_scale_rectangle() {
    let corners = vec![coord(0, 0), coord(10, 0), coord(10, 6), coord(0, 6)];
    let s = Coordinates::axis_scale(&corners).unwrap();
    assert!(s.eq_rat(&ratq(6, 10)));
    assert!(s.eq_rat(&ratq(3, 5)));
}

#[test]
fn axis_scale_degenerate() {
    let corners = vec![coord(4, 5), coord(4, 5), coord(4, 5)];
    let s = Coordinates::axis_scale(&corners).unwrap();
    assert!(s.eq_rat(&rat(0)));
}

#[test]
fn axis_scale_empty_rejected() {
    let corners: Vec<Coordinate> = Vec::new();
    assert!(matches!(
        Coordinates::axis_scale(&corners),
        Err(Error::Precondition(PreconditionError::TooFewPoints))
    ));
}

#[test]
fn identity_composition() {
    let p = coord(7, -3)
        .flip_x()
        .rotate(Dir::quarter_turn())
        .unwrap()
        .scale_x(ratq(3, 2))
        .scale_y(rat(4));
    let e = p.reference_to_world(&coord(0, 0)).unwrap();
    assert_coord_eq(&p, &e);
}

#[test]
fn flip_involution() {
    let p = coord(7, -3).flip_x();
    let q = p.flip_x().flip_x();
    assert_coord_eq(&p, &q);
    let r = p.flip_y().flip_y();
    assert_coord_eq(&p, &r);
}

#[test]
fn rotation_quarter_turn() {
    let world = coord(0, 0).rotate(Dir::quarter_turn()).unwrap();
    let e = coord(1, 0).reference_to_world(&world).unwrap();
    assert!(e.x.eq_rat(&rat(0)));
    assert!(e.y.eq_rat(&rat(1)));
}

#[test]
fn scaled_translated_frame() {
    let world = coord(3, 4).scale_x(rat(2)).scale_y(rat(2));
    let e = coord(1, 1).reference_to_world(&world).unwrap();
    assert!(e.x.eq_rat(&rat(5)));
    assert!(e.y.eq_rat(&rat(6)));
}

#[test]
fn composition_through_two_frames() {
    let p = coord(1, 2);
    let b = coord(3, 0).flip_x();
    let c = coord(0, 5).scale_x(rat(2));
    let through_b = p.reference_to_world(&b).unwrap();
    assert!(through_b.x.eq_rat(&rat(2)));
    assert!(through_b.y.eq_rat(&rat(2)));
    let through_c = through_b.reference_to_world(&c).unwrap();
    assert!(through_c.x.eq_rat(&rat(4)));
    assert!(through_c.y.eq_rat(&rat(7)));
}

#[test]
fn builder_applies_in_call_order() {
    // Scale by two in x, then translate by (5, 0): the point (1, 1)
    // lands at (7, 1); the reversed order would give (12, 1).
    let m = Matrix3::builder()
        .scale(rat(2), rat(1))
        .translate(Vector2::new(rat(5), rat(0)))
        .build()
        .unwrap();
    let (x, y) = m.apply_point(rat(1), rat(1)).unwrap();
    assert!(x.eq_rat(&rat(7)));
    assert!(y.eq_rat(&rat(1)));
}

#[test]
fn matrix3_determinant_of_scale() {
    let m = Matrix3::scale(rat(2), rat(3)).unwrap();
    assert!(m.determinant().unwrap().eq_rat(&rat(6)));
    assert!(Matrix3::unit().determinant().unwrap().eq_rat(&rat(1)));
}

#[test]
fn matrix2_elementary_shapes() {
    let sh = Matrix2::shear_x(ratq(1, 2));
    let v = sh.mul_vec(&vec2(2, 2)).unwrap();
    // Rows (1, 0) and (1/2, 1): the column vector (2, 2) maps to (2, 3).
    assert!(v.x.eq_rat(&rat(2)));
    assert!(v.y.eq_rat(&rat(3)));
    let t = Matrix2::new(rat(1), rat(2), rat(3), rat(4)).unwrap().transpose();
    assert!(t.eq_mat(&Matrix2::new(rat(1), rat(3), rat(2), rat(4)).unwrap()));
    let adj = Matrix2::new(rat(4), rat(3), rat(-1), rat(4)).unwrap().adjoint();
    assert!(adj.eq_mat(&Matrix2::new(rat(4), rat(-3), rat(1), rat(4)).unwrap()));
}

#[test]
fn reflect_about_diagonal_normal() {
    // Reflecting about the unit normal (3/5, 4/5) maps the normal to its
    // negation and keeps the perpendicular (-4/5, 3/5) fixed.
    let n = Vector2::new(ratq(3, 5), ratq(4, 5));
    let m = Matrix2::reflect_n(n).unwrap();
    let image = m.mul_vec(&n).unwrap();
    assert!(image.x.eq_rat(&ratq(-3, 5)));
    assert!(image.y.eq_rat(&ratq(-4, 5)));
    let perp = Vector2::new(ratq(-4, 5), ratq(3, 5));
    let fixed = m.mul_vec(&perp).unwrap();
    assert!(fixed.x.eq_rat(&perp.x));
    assert!(fixed.y.eq_rat(&perp.y));
}

#[test]
fn dir_compose_quarter_turns() {
    let half = Dir::quarter_turn().compose(Dir::quarter_turn()).unwrap();
    assert!(half.c.eq_rat(&rat(-1)));
    assert!(half.s.eq_rat(&rat(0)));
    let full = half.compose(Dir::half_turn()).unwrap();
    assert!(full.c.eq_rat(&rat(1)));
    assert!(full.s.eq_rat(&rat(0)));
}

#[test]
fn rat_arithmetic_exact() {
    let third = ratq(1, 3);
    let sixth = ratq(1, 6);
    assert!(third.add(sixth).unwrap().eq_rat(&ratq(1, 2)));
    assert!(third.sub(sixth).unwrap().eq_rat(&ratq(1, 6)));
    assert!(third.mul(sixth).unwrap().eq_rat(&ratq(1, 18)));
    assert!(third.div(sixth).unwrap().eq_rat(&rat(2)));
    assert!(ratq(4, 2).eq_rat(&rat(2)));
    assert!(rat(1).lt(&ratq(3, 2)));
    assert!(ratq(3, 2).le(&ratq(3, 2)));
}

#[test]
fn rat_division_by_zero_rejected() {
    assert!(matches!(Rat::new(5, 0), Err(NumericError::DivisionByZero)));
    assert!(matches!(rat(5).div(rat(0)), Err(NumericError::DivisionByZero)));
}

#[test]
fn rat_overflow_reported() {
    let big = rat(i64::MAX);
    assert!(matches!(big.add(big), Err(NumericError::Overflow)));
    assert!(matches!(big.mul(big), Err(NumericError::Overflow)));
}

#[test]
fn rat_sqrt_exact_and_inexact() {
    assert!(ratq(9, 4).sqrt().unwrap().eq_rat(&ratq(3, 2)));
    assert!(rat(49).sqrt().unwrap().eq_rat(&rat(7)));
    assert!(matches!(rat(2).sqrt(), Err(NumericError::NotRepresentable)));
    assert!(matches!(rat(-4).sqrt(), Err(NumericError::NotRepresentable)));
}

#[test]
fn rat_ceiling() {
    assert_eq!(ratq(7, 2).ceil_i64(), 4);
    assert_eq!(ratq(-7, 2).ceil_i64(), -3);
    assert_eq!(rat(5).ceil_i64(), 5);
    assert_eq!(ratq(-6, 3).ceil_i64(), -2);
}

#[test]
fn dir_invert_cancels() {
    let d = Dir::quarter_turn();
    let r = d.compose(d.invert()).unwrap();
    assert!(r.c.eq_rat(&rat(1)));
    assert!(r.s.eq_rat(&rat(0)));
}

#[test]
fn fix_keeps_the_position() {
    let p = coord(3, -4).flip_y().scale_x(ratq(7, 3));
    let q = p.fix().unwrap();
    assert_coord_eq(&p, &q);
}

#[test]
fn translate_moves_only_the_position() {
    let p = coord(1, 2).flip_x();
    let q = p.translate(ratq(1, 2), rat(-3)).unwrap();
    assert!(q.x.eq_rat(&ratq(3, 2)));
    assert!(q.y.eq_rat(&rat(-1)));
    assert!(q.fx);
    let (tx, ty) = q.tup();
    assert!(tx.eq_rat(&q.x));
    assert!(ty.eq_rat(&q.y));
}

#[test]
fn matrix2_builder_chain() {
    // Scale, then rotate a quarter turn: a row vector (1, 0) becomes
    // (2, 0) and then (0, 2).
    let m = Matrix2::builder()
        .scale(rat(2), rat(3))
        .rotate(Dir::quarter_turn())
        .build()
        .unwrap();
    let v = vec2(1, 0).mul_mat2(&m).unwrap();
    assert!(v.x.eq_rat(&rat(0)));
    assert!(v.y.eq_rat(&rat(2)));
}

#[test]
fn matrix2_scalar_ops() {
    let m = Matrix2::new(rat(1), rat(2), rat(3), rat(4)).unwrap();
    let doubled = m.smul(rat(2)).unwrap();
    assert!(doubled.eq_mat(&Matrix2::new(rat(2), rat(4), rat(6), rat(8)).unwrap()));
    let halved = doubled.sdiv(rat(4)).unwrap();
    assert!(halved.eq_mat(&Matrix2::new(ratq(1, 2), rat(1), ratq(3, 2), rat(2)).unwrap()));
    let s = m.add(m.neg()).unwrap();
    assert!(s.eq_mat(&Matrix2::new(rat(0), rat(0), rat(0), rat(0)).unwrap()));
}

#[test]
fn matrix3_scalar_multiple() {
    // Halving every entry of a matrix with determinant 6 divides the
    // determinant by eight.
    let m = Matrix3::scale(rat(2), rat(3)).unwrap().smul(ratq(1, 2)).unwrap();
    assert!(m.determinant().unwrap().eq_rat(&ratq(3, 4)));
    assert!(!m.eq_mat(&Matrix3::scale(rat(2), rat(3)).unwrap()));
}

#[test]
fn project_onto_axes() {
    let px = Matrix2::project_x();
    let v = px.mul_vec(&vec2(3, 7)).unwrap();
    assert!(v.x.eq_rat(&rat(3)));
    assert!(v.y.eq_rat(&rat(0)));
    let py = Matrix2::project_y();
    let w = py.mul_vec(&vec2(3, 7)).unwrap();
    assert!(w.x.eq_rat(&rat(0)));
    assert!(w.y.eq_rat(&rat(7)));
}
