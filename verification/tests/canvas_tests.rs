use render_core::canvas::Canvas;
use render_core::color::Color;
use render_core::fixed::Scalar;

fn s(n: i64, d: i64) -> Scalar {
    Scalar::from_ratio(n, d)
}

fn whole(n: i64) -> Scalar {
    Scalar::from_int(n)
}

fn black() -> Color {
    Color::new(whole(0), whole(0), whole(0))
}

#[test]
fn new_canvas() {
    let c = Canvas::new(4000, 2000);

    assert_eq!(c.width(), 4000);
    assert_eq!(c.height(), 2000);

    assert_eq!(c.pixel_at(500, 10), black())
}

#[test]
fn write_pixel_to_canvas() {
    let mut c = Canvas::new(10, 20);
    let r1 = Color::new(whole(1), whole(0), whole(0));

    c.write_pixel(2, 3, r1);

    assert_eq!(c.pixel_at(2, 3), r1);
}

#[test]
fn proper_ppm_header() {
    let c = Canvas::new(3, 6);

    let ppm = c.to_ppm();
    let mut lines = ppm.lines();

    assert_eq!(lines.next(), Some("P3"));
    assert_eq!(lines.next(), Some("3 6"));
    assert_eq!(lines.next(), Some("255"));
}

#[test]
fn add_pixel_data_to_ppm() {
    let mut c = Canvas::new(5, 3);
    c.write_pixel(0, 0, Color::new(s(15, 10), whole(0), whole(0)));
    c.write_pixel(2, 1, Color::new(whole(0), s(5, 10), whole(0)));
    c.write_pixel(4, 2, Color::new(s(-5, 10), whole(0), whole(1)));

    let ppm = c.to_ppm();
    let mut lines = ppm.lines();

    lines.next();
    lines.next();
    lines.next();

    assert_eq!(lines.next(), Some("255 0 0 0 0 0 0 0 0 0 0 0 0 0 0"));
    assert_eq!(lines.next(), Some("0 0 0 0 0 0 0 128 0 0 0 0 0 0 0"));
    assert_eq!(lines.next(), Some("0 0 0 0 0 0 0 0 0 0 0 0 0 0 255"));
}

#[test]
fn safe_write_pixel() {
    let mut c = Canvas::new(5, 3);
    c.safe_write_pixel(0, 0, Color::new(whole(1), whole(1), whole(1)));
    c.safe_write_pixel(100, 100, Color::new(whole(1), whole(1), whole(1)));
    c.safe_write_pixel(5, 3, Color::new(whole(1), whole(1), whole(1)));
}

#[test]
fn safe_write_pixel_out_of_bounds_changes_nothing() {
    let mut c = Canvas::new(2, 2);
    let white = Color::new(whole(1), whole(1), whole(1));

    c.safe_write_pixel(2, 0, white);
    c.safe_write_pixel(0, 2, white);
    c.safe_write_pixel(2, 2, white);
    c.safe_write_pixel(100, 100, white);

    for y in 0..2 {
        for x in 0..2 {
            assert_eq!(c.pixel_at(x, y), black());
        }
    }

    c.safe_write_pixel(1, 1, white);
    assert_eq!(c.pixel_at(1, 1), white);
}

#[test]
fn fresh_canvas_round_trip() {
    let c = Canvas::new(7, 2);
    let ppm = c.to_ppm();

    let row = "0 0 0 0 0 0 0 0 0 0 0 0 0 0 0 0 0 0\n0 0 0\n";
    let expected = format!("P3\n7 2\n255\n{}{}", row, row);
    assert_eq!(ppm, expected);

    for line in ppm.lines() {
        assert!(line.len() <= 70);
        assert!(!line.ends_with(' '));
    }
}

#[test]
fn wide_canvas_wraps_every_six_triples() {
    let mut c = Canvas::new(13, 1);
    c.write_pixel(12, 0, Color::new(whole(1), whole(1), whole(1)));
    let ppm = c.to_ppm();
    let mut lines = ppm.lines();

    lines.next();
    lines.next();
    lines.next();

    assert_eq!(lines.next(), Some("0 0 0 0 0 0 0 0 0 0 0 0 0 0 0 0 0 0"));
    assert_eq!(lines.next(), Some("0 0 0 0 0 0 0 0 0 0 0 0 0 0 0 0 0 0"));
    assert_eq!(lines.next(), Some("255 255 255"));
    assert_eq!(lines.next(), None);
}
