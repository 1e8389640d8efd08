use calibrate_touchscreen::affine::CalibrationError;
use calibrate_touchscreen::point::{normalize, target, targets, Point, TARGET_COUNT};
use calibrate_touchscreen::session::{CalibrationSession, TouchOutcome};
use calibrate_touchscreen::text::calibration_line;

#[test]
fn three_touches_walk_through_every_step() {
    let mut s = CalibrationSession::new();
    assert_eq!(s.step(), 0);
    assert!(!s.is_done());
    assert_eq!(s.current_target(), Some(target(0)));
    assert_eq!(s.record_touch(Point::new(1, 2)), TouchOutcome::Next(target(1)));
    assert_eq!(s.step(), 1);
    assert!(!s.is_done());
    assert_eq!(s.current_target(), Some(target(1)));
    assert_eq!(s.record_touch(Point::new(900_000, 3)), TouchOutcome::Next(target(2)));
    assert_eq!(s.step(), 2);
    assert!(!s.is_done());
    assert!(matches!(s.record_touch(Point::new(5, 900_000)), TouchOutcome::Solved(_)));
    assert_eq!(s.step(), TARGET_COUNT);
    assert!(s.is_done());
    assert_eq!(s.current_target(), None);
}

#[test]
fn touches_after_solve_are_ignored() {
    let mut s = CalibrationSession::new();
    for t in targets() {
        s.record_touch(t);
    }
    assert!(s.is_done());
    assert_eq!(s.record_touch(Point::new(7, 7)), TouchOutcome::Ignored);
    assert_eq!(s.step(), 3);
    assert!(s.is_done());
}

#[test]
fn touches_on_targets_print_identity() {
    let mut s = CalibrationSession::new();
    assert!(matches!(s.record_touch(Point::new(200_000, 400_000)), TouchOutcome::Next(_)));
    assert!(matches!(s.record_touch(Point::new(800_000, 600_000)), TouchOutcome::Next(_)));
    match s.record_touch(Point::new(400_000, 800_000)) {
        TouchOutcome::Solved(m) => {
            assert_eq!(calibration_line(&m), "1.000 0.000 0.000 0.000 1.000 0.000")
        }
        other => panic!("expected a solved map, got {:?}", other),
    }
}

#[test]
fn coincident_touches_fail_as_degenerate() {
    let mut s = CalibrationSession::new();
    let p = Point::new(100_000, 100_000);
    s.record_touch(p);
    s.record_touch(p);
    assert_eq!(s.record_touch(p), TouchOutcome::Failed(CalibrationError::Degenerate));
    assert!(s.is_done());
}

#[test]
fn targets_are_fixed() {
    assert_eq!(
        targets(),
        [
            Point::new(200_000, 400_000),
            Point::new(800_000, 600_000),
            Point::new(400_000, 800_000)
        ]
    );
}

#[test]
fn normalize_divides_by_extent() {
    assert_eq!(normalize(50 * 256, 100), Some(500_000));
    assert_eq!(normalize(0, 7), Some(0));
    assert_eq!(normalize(100 * 256, 100), Some(1_000_000));
    assert_eq!(normalize(1, 3), Some(1302));
    assert_eq!(normalize(-1, 100), Some(-40));
    assert_eq!(normalize(i32::MAX, 1), None);
    assert_eq!(normalize(i32::MIN, 1), None);
}

#[test]
fn current_target_image_follows_the_step() {
    let mut s = CalibrationSession::new();
    let first = s.render_current_target(400, 300).unwrap();
    assert_eq!(first, calibrate_touchscreen::render::render_target(400, 300, target(0)));
    let i = 4 * (120 * 400 + 80);
    assert_eq!(&first[i..i + 4], &[255, 255, 255, 255]);
    s.record_touch(target(0));
    let second = s.render_current_target(400, 300).unwrap();
    let j = 4 * (180 * 400 + 320);
    assert_eq!(&second[j..j + 4], &[255, 255, 255, 255]);
    assert_ne!(&second[i..i + 4], &[255, 255, 255, 255]);
    s.record_touch(target(1));
    s.record_touch(target(2));
    assert_eq!(s.render_current_target(400, 300), None);
}
