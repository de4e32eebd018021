use render_core::fixed::Scalar;
use render_core::sim::{tick, Projectile, World};
use render_core::tuple::Tuple;

fn s(n: i64, d: i64) -> Scalar {
    Scalar::from_ratio(n, d)
}

fn whole(n: i64) -> Scalar {
    Scalar::from_int(n)
}

#[test]
fn tick_advances_position_and_velocity() {
    let world = World {
        gravity: Tuple::vector(whole(0), whole(0), s(-1, 10)),
        wind: Tuple::vector(whole(0), s(-1, 100), whole(0)),
    };
    let p = Projectile {
        position: Tuple::point(whole(0), whole(0), whole(1)),
        velocity: Tuple::vector(whole(0), whole(6), whole(6)),
    };

    let next = tick(&world, &p);

    assert_eq!(next.position, Tuple::point(whole(0), whole(6), whole(7)));
    assert_eq!(next.velocity, Tuple::vector(whole(0), s(599, 100), s(59, 10)));
}

#[test]
fn scalar_from_ratio_is_exact_for_decimal_fractions() {
    assert_eq!(Scalar::from_ratio(43, 10), Scalar::from_units(430_000_000));
    assert_eq!(Scalar::from_ratio(-1, 4), Scalar::from_units(-25_000_000));
    assert_eq!(Scalar::from_ratio(1, 3), Scalar::from_units(33_333_333));
}
