use calibrate_touchscreen::affine::{solve, Affine, CalibrationError};
use calibrate_touchscreen::point::{targets, Point, UNIT};
use calibrate_touchscreen::text::calibration_line;

fn p(x: i32, y: i32) -> Point {
    Point::new(x, y)
}

fn assert_maps(m: &Affine, touch: &[Point; 3], target: &[Point; 3]) {
    for j in 0..3 {
        let (t, s) = (touch[j], target[j]);
        assert_eq!(
            m.a * t.x as i128 + m.b * t.y as i128 + m.c * UNIT as i128,
            s.x as i128 * m.den
        );
        assert_eq!(
            m.d * t.x as i128 + m.e * t.y as i128 + m.f * UNIT as i128,
            s.y as i128 * m.den
        );
    }
}

#[test]
fn identity_touches_give_identity_map() {
    let t = targets();
    let m = solve(&t, &t).unwrap();
    assert!(m.den > 0);
    assert_eq!(m.a, m.den);
    assert_eq!(m.b, 0);
    assert_eq!(m.c, 0);
    assert_eq!(m.d, 0);
    assert_eq!(m.e, m.den);
    assert_eq!(m.f, 0);
    assert_eq!(calibration_line(&m), "1.000 0.000 0.000 0.000 1.000 0.000");
}

#[test]
fn identity_on_other_targets() {
    let t = [p(100_000, 900_000), p(950_000, 50_000), p(500_000, 500_001)];
    let m = solve(&t, &t).unwrap();
    assert_eq!((m.a, m.b, m.c, m.d, m.e, m.f), (m.den, 0, 0, 0, m.den, 0));
}

#[test]
fn scaled_touches_round_trip() {
    let t = targets();
    let touch = [p(100_000, 200_000), p(400_000, 300_000), p(200_000, 400_000)];
    let m = solve(&t, &touch).unwrap();
    assert_maps(&m, &touch, &t);
    assert_eq!(calibration_line(&m), "2.000 0.000 0.000 0.000 2.000 0.000");
}

#[test]
fn shifted_touches_round_trip() {
    let t = targets();
    let touch = [p(100_000, 350_000), p(700_000, 550_000), p(300_000, 750_000)];
    let m = solve(&t, &touch).unwrap();
    assert_maps(&m, &touch, &t);
    assert_eq!(calibration_line(&m), "1.000 0.000 0.100 0.000 1.000 0.050");
}

#[test]
fn swapped_axes_round_trip() {
    let t = targets();
    let touch = [p(400_000, 200_000), p(600_000, 800_000), p(800_000, 400_000)];
    let m = solve(&t, &touch).unwrap();
    assert_maps(&m, &touch, &t);
    assert_eq!(calibration_line(&m), "0.000 1.000 0.000 1.000 0.000 0.000");
}

#[test]
fn mirrored_touches_round_trip() {
    let t = targets();
    let touch = [p(800_000, 400_000), p(200_000, 600_000), p(600_000, 800_000)];
    let m = solve(&t, &touch).unwrap();
    assert_maps(&m, &touch, &t);
    assert_eq!(calibration_line(&m), "-1.000 0.000 1.000 0.000 1.000 0.000");
}

#[test]
fn skewed_touches_round_trip() {
    let t = targets();
    let touch = [p(123_456, 234_567), p(876_543, 345_678), p(456_789, 912_345)];
    let m = solve(&t, &touch).unwrap();
    assert_maps(&m, &touch, &t);
}

#[test]
fn extreme_touches_round_trip() {
    let t = targets();
    let touch = [p(i32::MIN, i32::MIN), p(i32::MAX, i32::MIN), p(i32::MIN, i32::MAX)];
    let m = solve(&t, &touch).unwrap();
    assert_maps(&m, &touch, &t);
}

#[test]
fn coincident_touches_are_degenerate() {
    let t = targets();
    let touch = [p(100_000, 100_000), p(100_000, 100_000), p(100_000, 100_000)];
    assert_eq!(solve(&t, &touch), Err(CalibrationError::Degenerate));
}

#[test]
fn collinear_touches_are_degenerate() {
    let t = targets();
    let touch = [p(100_000, 100_000), p(300_000, 300_000), p(900_000, 900_000)];
    assert_eq!(solve(&t, &touch), Err(CalibrationError::Degenerate));
}

#[test]
fn text_rounds_halves_away_from_zero() {
    let m = Affine { a: 1, b: -1, c: 3, d: -3, e: 2000, f: 3_500_000, den: 2000 };
    assert_eq!(
        calibration_line(&m),
        "0.001 -0.001 0.002 -0.002 1.000 1750.000"
    );
}

#[test]
fn text_drops_sign_of_rounded_zero() {
    let m = Affine { a: -1, b: 0, c: 1, d: -4_001, e: 12_345_678, f: -9, den: 4000 };
    assert_eq!(
        calibration_line(&m),
        "0.000 0.000 0.000 -1.000 3086.420 -0.002"
    );
}
