//! The decisions of a calibration run: from each input event to the next
//! state and the action that the display side must carry out.

use vstd::prelude::*;
use crate::affine::{solves, Affine, CalibrationError};
use crate::point::{normalize, normalized, target_at, target_seq, Point};
use crate::session::{
    after_touch, initial_session, is_solved, CalibrationSession, SessionView, TouchOutcome,
};

verus! {

/// Key code of the escape key.
pub const KEY_ESC: u32 = 1;

/// An input event, as reported by the display side. Surface positions are
/// surface-local, in 1/256 pixel; sizes are in pixels.
#[derive(Clone, Copy, Debug, PartialEq, Eq, Structural)]
pub enum Event {
    /// A display surface was configured and needs drawing.
    Configure,
    /// A touch went down at `(x, y)` on a `width` by `height` surface.
    TouchDown { x: i32, y: i32, width: u32, height: u32 },
    /// The pointer entered a `width` by `height` surface at `(x, y)`.
    PointerEnter { x: i32, y: i32, width: u32, height: u32 },
    /// The pointer moved to `(x, y)` on the surface it is over.
    PointerMotion { x: i32, y: i32 },
    /// A pointer button changed state.
    PointerButton { pressed: bool },
    /// A key changed state.
    Key { code: u32 },
    /// A surface was asked to close.
    Close,
}

/// What the display side must do after an event.
#[derive(Clone, Copy, Debug, PartialEq, Eq, Structural)]
pub enum Action {
    /// Nothing.
    Idle,
    /// Draw this target on every display.
    DrawAll(Point),
    /// Calibration is complete: report this map and stop.
    Report(Affine),
    /// The touches lie on one line: report the failure and stop.
    Fail(CalibrationError),
    /// Stop without a result.
    Quit,
}

/// The abstract state of a run.
pub struct RunView {
    pub session: SessionView,
    pub running: bool,
    pub pointer_x: int,
    pub pointer_y: int,
    pub pointer_width: int,
    pub pointer_height: int,
}

/// The normalized point of a press at `(x, y)` on a `width` by `height`
/// surface; `None` for a surface of no size or a point too far away to
/// represent.
pub open spec fn press_point(x: int, y: int, width: int, height: int) -> Option<Point> {
    if width < 1 || height < 1 {
        None
    } else {
        let nx = normalized(x, width);
        let ny = normalized(y, height);
        if i32::MIN <= nx <= i32::MAX && i32::MIN <= ny <= i32::MAX {
            Some(Point { x: nx as i32, y: ny as i32 })
        } else {
            None
        }
    }
}

/// `a` is the action for a touch that took the session from `before` to
/// `after`.
pub open spec fn touch_action(before: SessionView, after: SessionView, a: Action) -> bool {
    &&& before.step < 2 ==> a == Action::DrawAll(target_at(before.step + 1int))
    &&& before.step == 2 ==> {
        ||| a matches Action::Report(m) && solves(Ok(m), target_seq(), after.touches)
        ||| a matches Action::Fail(e) && solves(Err(e), target_seq(), after.touches)
    }
    &&& before.step >= 3 ==> a == Action::Idle
}

/// The effect of a press at `p` (if any) on run `v`, given that `w` is the
/// state afterwards and `a` the action.
pub open spec fn press_effect(v: RunView, p: Option<Point>, w: RunView, a: Action) -> bool {
    match p {
        None => w == v && a == Action::Idle,
        Some(q) => {
            &&& w == (RunView { session: after_touch(v.session, q), ..v })
            &&& touch_action(v.session, w.session, a)
        },
    }
}

/// A calibration run: the session, whether the user asked to stop, and the
/// pointer's last position and surface.
pub struct Calibrator {
    session: CalibrationSession,
    running: bool,
    pointer_x: i32,
    pointer_y: i32,
    pointer_width: u32,
    pointer_height: u32,
}

impl View for Calibrator {
    type V = RunView;

    closed spec fn view(&self) -> RunView {
        RunView {
            session: self.session@,
            running: self.running,
            pointer_x: self.pointer_x as int,
            pointer_y: self.pointer_y as int,
            pointer_width: self.pointer_width as int,
            pointer_height: self.pointer_height as int,
        }
    }
}

impl Calibrator {
    /// The session inside holds at most three touches.
    pub closed spec fn wf(&self) -> bool {
        self.session.wf()
    }

    /// A run that has seen no event: a fresh session, running, the pointer
    /// over no surface.
    pub fn new() -> (c: Calibrator)
        ensures
            c.wf(),
            c@ == (RunView {
                session: initial_session(),
                running: true,
                pointer_x: 0,
                pointer_y: 0,
                pointer_width: 0,
                pointer_height: 0,
            }),
    {
        Calibrator {
            session: CalibrationSession::new(),
            running: true,
            pointer_x: 0,
            pointer_y: 0,
            pointer_width: 0,
            pointer_height: 0,
        }
    }

    /// Whether the run should wait for more events: the user has not asked
    /// to stop and the session is not solved.
    pub fn not_done(&self) -> (r: bool)
        ensures
            r == (self@.running && !is_solved(self@.session)),
    {
        self.running && !self.session.is_done()
    }

    /// The session's current target, when it has one.
    pub fn current_target(&self) -> (r: Option<Point>)
        requires
            self.wf(),
        ensures
            self@.session.step < 3 ==> r == Some(target_at(self@.session.step as int)),
            self@.session.step >= 3 ==> r is None,
    {
        self.session.current_target()
    }

    fn press(&mut self, x: i32, y: i32, width: u32, height: u32) -> (a: Action)
        requires
            old(self).wf(),
        ensures
            final(self).wf(),
            press_effect(old(self)@, press_point(x as int, y as int, width as int, height as int), final(self)@, a),
    {
        if width < 1 || height < 1 {
            return Action::Idle;
        }
        let nx = normalize(x, width);
        let ny = normalize(y, height);
        match (nx, ny) {
            (Some(px), Some(py)) => {
                match self.session.record_touch(Point { x: px, y: py }) {
                    TouchOutcome::Next(t) => Action::DrawAll(t),
                    TouchOutcome::Solved(m) => Action::Report(m),
                    TouchOutcome::Failed(e) => Action::Fail(e),
                    TouchOutcome::Ignored => Action::Idle,
                }
            },
            _ => Action::Idle,
        }
    }

    /// Takes one event and returns what the display side must do.
    pub fn handle_event(&mut self, ev: Event) -> (a: Action)
        requires
            old(self).wf(),
        ensures
            final(self).wf(),
            ev == Event::Configure ==> final(self)@ == old(self)@ && (if is_solved(old(self)@.session) {
                a == Action::Idle
            } else {
                a == Action::DrawAll(target_at(old(self)@.session.step as int))
            }),
            ev matches Event::TouchDown { x, y, width, height } ==> press_effect(
                old(self)@,
                press_point(x as int, y as int, width as int, height as int),
                final(self)@,
                a,
            ),
            ev matches Event::PointerEnter { x, y, width, height } ==> a == Action::Idle
                && final(self)@ == (RunView {
                pointer_x: x as int,
                pointer_y: y as int,
                pointer_width: width as int,
                pointer_height: height as int,
                ..old(self)@
            }),
            ev matches Event::PointerMotion { x, y } ==> a == Action::Idle && final(self)@ == (
            RunView { pointer_x: x as int, pointer_y: y as int, ..old(self)@ }),
            ev == (Event::PointerButton { pressed: true }) ==> press_effect(
                old(self)@,
                press_point(
                    old(self)@.pointer_x,
                    old(self)@.pointer_y,
                    old(self)@.pointer_width,
                    old(self)@.pointer_height,
                ),
                final(self)@,
                a,
            ),
            ev == (Event::PointerButton { pressed: false }) ==> a == Action::Idle && final(self)@
                == old(self)@,
            ev == (Event::Key { code: KEY_ESC }) || ev == Event::Close ==> a == Action::Quit
                && final(self)@ == (RunView { running: false, ..old(self)@ }),
            ev matches Event::Key { code } && code != KEY_ESC ==> a == Action::Idle
                && final(self)@ == old(self)@,
    {
        match ev {
            Event::Configure => match self.session.current_target() {
                Some(t) => Action::DrawAll(t),
                None => Action::Idle,
            },
            Event::TouchDown { x, y, width, height } => self.press(x, y, width, height),
            Event::PointerEnter { x, y, width, height } => {
                self.pointer_x = x;
                self.pointer_y = y;
                self.pointer_width = width;
                self.pointer_height = height;
                Action::Idle
            },
            Event::PointerMotion { x, y } => {
                self.pointer_x = x;
                self.pointer_y = y;
                Action::Idle
            },
            Event::PointerButton { pressed } => {
                if pressed {
                    self.press(self.pointer_x, self.pointer_y, self.pointer_width, self.pointer_height)
                } else {
                    Action::Idle
                }
            },
            Event::Key { code } => {
                if code == KEY_ESC {
                    self.running = false;
                    Action::Quit
                } else {
                    Action::Idle
                }
            },
            Event::Close => {
                self.running = false;
                Action::Quit
            },
        }
    }
}

} // verus!
