use calibrate_touchscreen::affine::CalibrationError;
use calibrate_touchscreen::controller::{Action, Calibrator, Event, KEY_ESC};
use calibrate_touchscreen::point::target;
use calibrate_touchscreen::text::calibration_line;

fn touch(px: i32, py: i32) -> Event {
    Event::TouchDown { x: px * 256, y: py * 256, width: 1000, height: 500 }
}

#[test]
fn touches_on_targets_report_identity() {
    let mut c = Calibrator::new();
    assert!(c.not_done());
    assert_eq!(c.handle_event(Event::Configure), Action::DrawAll(target(0)));
    assert_eq!(c.handle_event(touch(200, 200)), Action::DrawAll(target(1)));
    assert_eq!(c.handle_event(touch(800, 300)), Action::DrawAll(target(2)));
    match c.handle_event(touch(400, 400)) {
        Action::Report(m) => {
            assert_eq!(calibration_line(&m), "1.000 0.000 0.000 0.000 1.000 0.000")
        }
        other => panic!("expected a report, got {:?}", other),
    }
    assert!(!c.not_done());
    assert_eq!(c.handle_event(Event::Configure), Action::Idle);
    assert_eq!(c.handle_event(touch(1, 1)), Action::Idle);
}

#[test]
fn pointer_presses_use_last_position() {
    let mut c = Calibrator::new();
    assert_eq!(c.handle_event(Event::PointerButton { pressed: true }), Action::Idle);
    assert_eq!(c.current_target(), Some(target(0)));
    let enter = Event::PointerEnter { x: 0, y: 0, width: 1000, height: 500 };
    assert_eq!(c.handle_event(enter), Action::Idle);
    assert_eq!(
        c.handle_event(Event::PointerMotion { x: 200 * 256, y: 200 * 256 }),
        Action::Idle
    );
    assert_eq!(c.handle_event(Event::PointerButton { pressed: false }), Action::Idle);
    assert_eq!(
        c.handle_event(Event::PointerButton { pressed: true }),
        Action::DrawAll(target(1))
    );
    assert_eq!(c.current_target(), Some(target(1)));
}

#[test]
fn same_spot_three_times_fails() {
    let mut c = Calibrator::new();
    c.handle_event(touch(100, 50));
    c.handle_event(touch(100, 50));
    assert_eq!(
        c.handle_event(touch(100, 50)),
        Action::Fail(CalibrationError::Degenerate)
    );
    assert!(!c.not_done());
}

#[test]
fn escape_quits() {
    let mut c = Calibrator::new();
    assert_eq!(c.handle_event(Event::Key { code: 30 }), Action::Idle);
    assert!(c.not_done());
    assert_eq!(c.handle_event(Event::Key { code: KEY_ESC }), Action::Quit);
    assert!(!c.not_done());
}

#[test]
fn close_quits() {
    let mut c = Calibrator::new();
    assert_eq!(c.handle_event(Event::Close), Action::Quit);
    assert!(!c.not_done());
}

#[test]
fn touch_on_empty_surface_is_ignored() {
    let mut c = Calibrator::new();
    let ev = Event::TouchDown { x: 5, y: 5, width: 0, height: 10 };
    assert_eq!(c.handle_event(ev), Action::Idle);
    assert_eq!(c.current_target(), Some(target(0)));
}
