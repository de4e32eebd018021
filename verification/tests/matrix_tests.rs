use render_core::fixed::Scalar;
use render_core::matrix::Matrix;

fn s(n: i64, d: i64) -> Scalar {
    Scalar::from_ratio(n, d)
}

fn whole(n: i64) -> Scalar {
    Scalar::from_int(n)
}

#[test]
fn new_4x4_matrix() {
    let m = Matrix::new(vec![
        vec![whole(1), whole(2), whole(3), whole(4)],
        vec![s(55, 10), s(65, 10), s(75, 10), s(85, 10)],
        vec![whole(9), whole(10), whole(11), whole(12)],
        vec![s(135, 10), s(145, 10), s(155, 10), s(165, 10)],
    ]);

    assert_eq!(m.get(0, 0), whole(1));
    assert_eq!(m.get(0, 3), whole(4));
    assert_eq!(m.get(3, 2), s(155, 10));
}

#[test]
fn new_3x3_matrix() {
    let m = Matrix::new(vec![
        vec![whole(1), whole(2), whole(3)],
        vec![s(55, 10), s(65, 10), s(75, 10)],
        vec![whole(9), whole(10), whole(11)],
    ]);

    assert_eq!(m.get(0, 0), whole(1));
    assert_eq!(m.get(0, 2), whole(3));
    assert_eq!(m.get(2, 1), whole(10));
}

#[test]
fn new_2x2_matrix() {
    let m = Matrix::new(vec![vec![whole(1), whole(2)], vec![s(55, 10), s(65, 10)]]);

    assert_eq!(m.get(0, 0), whole(1));
    assert_eq!(m.get(0, 1), whole(2));
    assert_eq!(m.get(1, 1), s(65, 10));
}

#[test]
fn compare_matrices() {
    let m1 = Matrix::new(vec![vec![whole(1), whole(2)], vec![whole(3), whole(4)]]);

    let m2 = Matrix::new(vec![vec![whole(1), whole(2)], vec![whole(3), whole(4)]]);

    let m3 = Matrix::new(vec![vec![whole(1), whole(2)], vec![whole(5), whole(6)]]);

    let m4 = Matrix::new(vec![
        vec![whole(1), whole(2), whole(3)],
        vec![whole(1), whole(2), whole(3)],
        vec![whole(1), whole(2), whole(3)],
    ]);

    assert_eq!(m1, m2);
    assert_ne!(m1, m3);
    assert_ne!(m1, m4);
}

#[test]
fn dimensions_are_always_four_by_four() {
    let m = Matrix::new(vec![vec![whole(1)]]);
    assert_eq!(m.dimensions(), (4, 4));
    assert_eq!(m.get(3, 3), whole(0));
}
