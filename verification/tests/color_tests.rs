use render_core::color::Color;
use render_core::fixed::Scalar;

fn s(n: i64, d: i64) -> Scalar {
    Scalar::from_ratio(n, d)
}

fn whole(n: i64) -> Scalar {
    Scalar::from_int(n)
}

#[test]
fn colors_are_tuples() {
    let c1 = Color::new(s(-5, 10), s(4, 10), s(17, 10));

    assert_eq!(c1.red, s(-5, 10));
    assert_eq!(c1.green, s(4, 10));
    assert_eq!(c1.blue, s(17, 10));
}

#[test]
fn adding_colors() {
    let c1 = Color::new(s(9, 10), s(6, 10), s(75, 100));
    let c2 = Color::new(s(7, 10), s(1, 10), s(25, 100));

    let result = Color::new(s(16, 10), s(7, 10), whole(1));

    assert_eq!(c1.add(c2), result);
}

#[test]
fn subtracting_colors() {
    let c1 = Color::new(s(9, 10), s(6, 10), s(75, 100));
    let c2 = Color::new(s(7, 10), s(1, 10), s(25, 100));

    let result = Color::new(s(2, 10), s(5, 10), s(5, 10));

    assert_eq!(c1.sub(c2), result);
}

#[test]
fn multiple_color_by_scalar() {
    let c1 = Color::new(s(2, 10), s(3, 10), s(4, 10));
    let result = Color::new(s(4, 10), s(6, 10), s(8, 10));

    assert_eq!(c1.scale(whole(2)), result);
}

#[test]
fn multiply_color_by_color() {
    let c1 = Color::new(whole(1), s(2, 10), s(4, 10));
    let c2 = Color::new(s(9, 10), whole(1), s(1, 10));

    let result = Color::new(s(9, 10), s(2, 10), s(4, 100));

    assert_eq!(c1.multiply(c2), result);
}

#[test]
fn to_ppm() {
    let c1 = Color::new(s(5, 10), whole(-1), s(15, 10));

    assert_eq!(c1.to_ppm(), "128 0 255");
}

#[test]
fn to_ppm_clamps_above_and_below() {
    assert_eq!(Color::new(s(15, 10), whole(0), whole(0)).to_ppm(), "255 0 0");
    assert_eq!(Color::new(whole(0), s(5, 10), whole(0)).to_ppm(), "0 128 0");
    assert_eq!(Color::new(s(-5, 10), whole(0), whole(1)).to_ppm(), "0 0 255");
}
