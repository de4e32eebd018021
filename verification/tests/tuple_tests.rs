use render_core::fixed::{Scalar, TUPLE_MARGIN};
use render_core::tuple::Tuple;

fn s(n: i64, d: i64) -> Scalar {
    Scalar::from_ratio(n, d)
}

fn whole(n: i64) -> Scalar {
    Scalar::from_int(n)
}

#[test]
fn a_tuple_with_w_1_is_a_point() {
    let t = Tuple { x: s(43, 10), y: s(-42, 10), z: s(31, 10), w: whole(1) };
    assert_eq!(t.x, s(43, 10));
    assert_eq!(t.y, s(-42, 10));
    assert_eq!(t.z, s(31, 10));
    assert_eq!(t.w, whole(1));
    assert_eq!(t.is_point(), true);
    assert_eq!(t.is_vector(), false);
}

#[test]
fn a_tuple_with_w_0_is_a_vector() {
    let t = Tuple { x: s(43, 10), y: s(-42, 10), z: s(31, 10), w: whole(0) };
    assert_eq!(t.x, s(43, 10));
    assert_eq!(t.y, s(-42, 10));
    assert_eq!(t.z, s(31, 10));
    assert_eq!(t.w, whole(0));
    assert_eq!(t.is_point(), false);
    assert_eq!(t.is_vector(), true);
}

#[test]
fn point_factory_creates_point() {
    let p = Tuple::point(whole(4), whole(-4), whole(3));
    let t = Tuple { x: whole(4), y: whole(-4), z: whole(3), w: whole(1) };

    assert_eq!(p, t);
}

#[test]
fn vector_factory_creates_vector() {
    let v = Tuple::vector(whole(4), whole(-4), whole(3));
    let t = Tuple { x: whole(4), y: whole(-4), z: whole(3), w: whole(0) };

    assert_eq!(v, t);
}

#[test]
fn adding_two_tuples() {
    let a1 = Tuple::point(whole(3), whole(-2), whole(5));
    let a2 = Tuple::vector(whole(-2), whole(3), whole(1));

    let result = Tuple::point(whole(1), whole(1), whole(6));

    assert_eq!(a1.add(a2), result);
}

#[test]
fn adding_two_vectors_gives_a_vector() {
    let a1 = Tuple::vector(whole(3), whole(-2), whole(5));
    let a2 = Tuple::vector(whole(-2), whole(3), whole(1));

    let result = Tuple::vector(whole(1), whole(1), whole(6));

    assert_eq!(a1.add(a2), result);
}

#[test]
fn subtracting_two_points() {
    let a1 = Tuple::point(whole(3), whole(2), whole(1));
    let a2 = Tuple::point(whole(5), whole(6), whole(7));

    let result = Tuple::vector(whole(-2), whole(-4), whole(-6));

    assert_eq!(a1.sub(a2), result);
}

#[test]
fn subtracting_vector_from_a_point() {
    let a1 = Tuple::point(whole(3), whole(2), whole(1));
    let a2 = Tuple::vector(whole(5), whole(6), whole(7));

    let result = Tuple::point(whole(-2), whole(-4), whole(-6));

    assert_eq!(a1.sub(a2), result);
}

#[test]
fn subtracting_two_vectors() {
    let a1 = Tuple::vector(whole(3), whole(2), whole(1));
    let a2 = Tuple::vector(whole(5), whole(6), whole(7));

    let result = Tuple::vector(whole(-2), whole(-4), whole(-6));

    assert_eq!(a1.sub(a2), result);
}

#[test]
fn subtract_vector_from_zero_vector() {
    let zero = Tuple::vector(whole(0), whole(0), whole(0));
    let a1 = Tuple::vector(whole(1), whole(-2), whole(3));

    let result = Tuple::vector(whole(-1), whole(2), whole(-3));

    assert_eq!(zero.sub(a1), result);
}

#[test]
fn negate_a_vector() {
    let a1 = Tuple::vector(whole(1), whole(-2), whole(3));

    let result = Tuple::vector(whole(-1), whole(2), whole(-3));

    assert_eq!(a1.negate(), result);
}

#[test]
fn multiple_tuple_by_scalar() {
    let a1 = Tuple::vector(whole(1), whole(-2), whole(3));

    let result = Tuple::vector(s(35, 10), whole(-7), s(105, 10));

    assert_eq!(a1.mul(s(35, 10)), result);
}

#[test]
fn divide_tuple_by_scalar() {
    let a1 = Tuple::vector(whole(1), whole(-2), whole(3));

    let result = Tuple::vector(s(5, 10), whole(-1), s(15, 10));

    assert_eq!(a1.div(whole(2)), result);
}

#[test]
fn magnitude_of_vectors() {
    let a1 = Tuple::vector(whole(1), whole(0), whole(0));
    let a2 = Tuple::vector(whole(0), whole(1), whole(0));
    let a3 = Tuple::vector(whole(0), whole(0), whole(1));

    assert_eq!(a1.magnitude(), whole(1));
    assert_eq!(a2.magnitude(), whole(1));
    assert_eq!(a3.magnitude(), whole(1));

    let m1 = whole(14);
    assert_eq!(Tuple::vector(whole(1), whole(2), whole(3)).magnitude(), m1.sqrt());
    assert_eq!(Tuple::vector(whole(-1), whole(-2), whole(-3)).magnitude(), m1.sqrt());
}

#[test]
fn normalizing_vector() {
    let a1 = Tuple::vector(whole(4), whole(0), whole(0));

    let result = Tuple::vector(whole(1), whole(0), whole(0));

    assert_eq!(a1.normalize(), result);

    let a2 = Tuple::vector(whole(1), whole(2), whole(3));
    assert_eq!(a2.normalize().magnitude().close_to(whole(1), TUPLE_MARGIN), true);
}

#[test]
fn dot_product() {
    let a1 = Tuple::vector(whole(1), whole(2), whole(3));
    let a2 = Tuple::vector(whole(2), whole(3), whole(4));

    assert_eq!(a1.dot(a2).close_to(whole(20), TUPLE_MARGIN), true);
}

#[test]
fn cross_product() {
    let a1 = Tuple::vector(whole(1), whole(2), whole(3));
    let a2 = Tuple::vector(whole(2), whole(3), whole(4));

    let result1 = Tuple::vector(whole(-1), whole(2), whole(-1));
    assert_eq!(a1.cross(a2), result1);
}

#[test]
fn addition_is_commutative() {
    let a = Tuple::point(s(43, 10), whole(-2), s(7, 10));
    let b = Tuple::vector(s(-13, 10), whole(5), s(99, 100));

    assert_eq!(a.add(b), b.add(a));
}

#[test]
fn subtracting_tuple_from_itself_is_zero() {
    let a = Tuple::point(s(43, 10), whole(-2), s(7, 10));
    let zero = Tuple { x: whole(0), y: whole(0), z: whole(0), w: whole(0) };

    assert_eq!(a.sub(a), zero);
}

#[test]
fn cross_product_is_anti_commutative() {
    let a = Tuple::vector(whole(1), whole(2), whole(3));
    let b = Tuple::vector(whole(2), whole(3), whole(4));

    assert_eq!(a.cross(b), b.cross(a).negate());
}
