//! The calibration session: the target on show and the touches recorded.

use vstd::prelude::*;
use crate::affine::{solve, solves, Affine, CalibrationError};
use crate::point::{target, target_at, target_seq, Point, TARGET_COUNT};
use crate::render::{is_image, render_target};

verus! {

/// The abstract state of a session: how many touches were recorded, and the
/// touch slots (a slot not yet written holds the origin).
pub struct SessionView {
    pub step: nat,
    pub touches: Seq<Point>,
}

/// A session before any touch.
pub open spec fn initial_session() -> SessionView {
    let o = Point { x: 0, y: 0 };
    SessionView { step: 0, touches: seq![o, o, o] }
}

/// All three touches are recorded: the session is solved and accepts no more.
pub open spec fn is_solved(v: SessionView) -> bool {
    v.step == 3
}

/// The state after a touch at `p`: it fills the next slot, unless the
/// session is already solved, which leaves it unchanged.
pub open spec fn after_touch(v: SessionView, p: Point) -> SessionView {
    if v.step < 3 {
        SessionView { step: v.step + 1, touches: v.touches.update(v.step as int, p) }
    } else {
        v
    }
}

/// What a recorded touch asks of the caller.
#[derive(Clone, Copy, Debug, PartialEq, Eq, Structural)]
pub enum TouchOutcome {
    /// Show this target on every display and wait for the next touch.
    Next(Point),
    /// The last touch was recorded and the map solved from all three.
    Solved(Affine),
    /// The last touch was recorded, but the map could not be solved.
    Failed(CalibrationError),
    /// The session was already solved; nothing changed.
    Ignored,
}

/// A calibration session: three targets shown in turn, one touch recorded for
/// each, then the affine map solved from them.
pub struct CalibrationSession {
    step: usize,
    touches: [Point; 3],
}

impl View for CalibrationSession {
    type V = SessionView;

    closed spec fn view(&self) -> SessionView {
        SessionView { step: self.step as nat, touches: self.touches@ }
    }
}

impl CalibrationSession {
    /// The session holds at most three touches.
    pub open spec fn wf(&self) -> bool {
        self@.step <= 3 && self@.touches.len() == 3
    }

    /// A session waiting for the touch on the first target.
    pub fn new() -> (s: CalibrationSession)
        ensures
            s@ == initial_session(),
            s.wf(),
    {
        let o = Point { x: 0, y: 0 };
        let s = CalibrationSession { step: 0, touches: [o, o, o] };
        assert(s@.touches =~= initial_session().touches);
        s
    }

    /// Number of touches recorded so far.
    pub fn step(&self) -> (n: usize)
        ensures
            n == self@.step,
    {
        self.step
    }

    /// True once all three touches are recorded.
    pub fn is_done(&self) -> (r: bool)
        ensures
            r == is_solved(self@),
    {
        self.step == TARGET_COUNT
    }

    /// The target to show now; `None` once the session is solved.
    pub fn current_target(&self) -> (r: Option<Point>)
        requires
            self.wf(),
        ensures
            self@.step < 3 ==> r == Some(target_at(self@.step as int)),
            self@.step == 3 ==> r is None,
    {
        if self.step < TARGET_COUNT {
            Some(target(self.step))
        } else {
            None
        }
    }

    /// The image of the current target for a `width` by `height` display;
    /// `None` once the session is solved.
    pub fn render_current_target(&self, width: u32, height: u32) -> (r: Option<Vec<u8>>)
        requires
            self.wf(),
            width >= 1,
            height >= 1,
            width * height * 4 <= usize::MAX,
        ensures
            self@.step < 3 ==> (r matches Some(buf) && is_image(
                buf@,
                width as int,
                height as int,
                target_at(self@.step as int),
            )),
            self@.step == 3 ==> r is None,
    {
        match self.current_target() {
            Some(t) => Some(render_target(width, height, t)),
            None => None,
        }
    }

    /// Records a touch at `p` for the target on show. Before the last target
    /// it returns the next target to show; on the last it returns the solve
    /// of all three touches against the targets; once solved it changes
    /// nothing.
    pub fn record_touch(&mut self, p: Point) -> (r: TouchOutcome)
        requires
            old(self).wf(),
        ensures
            final(self).wf(),
            final(self)@ == after_touch(old(self)@, p),
            old(self)@.step < 2 ==> r == TouchOutcome::Next(target_at(old(self)@.step + 1int)),
            old(self)@.step == 2 ==> {
                ||| r matches TouchOutcome::Solved(m) && solves(Ok(m), target_seq(), final(self)@.touches)
                ||| r matches TouchOutcome::Failed(e) && solves(Err(e), target_seq(), final(self)@.touches)
            },
            old(self)@.step == 3 ==> r == TouchOutcome::Ignored,
    {
        if self.step >= TARGET_COUNT {
            return TouchOutcome::Ignored;
        }
        self.touches.set(self.step, p);
        self.step = self.step + 1;
        if self.step < TARGET_COUNT {
            TouchOutcome::Next(target(self.step))
        } else {
            let t = crate::point::targets();
            match solve(&t, &self.touches) {
                Ok(m) => TouchOutcome::Solved(m),
                Err(e) => TouchOutcome::Failed(e),
            }
        }
    }
}

/// Three touches take a fresh session through its first, second and third
/// target to solved, recording the touches in order; it is not solved
/// before the third, and a further touch changes nothing.
pub proof fn lemma_three_touches_solve(p0: Point, p1: Point, p2: Point, p3: Point)
    ensures
        ({
            let s0 = initial_session();
            let s1 = after_touch(s0, p0);
            let s2 = after_touch(s1, p1);
            let s3 = after_touch(s2, p2);
            &&& s0.step == 0 && !is_solved(s0)
            &&& s1.step == 1 && !is_solved(s1)
            &&& s2.step == 2 && !is_solved(s2)
            &&& s3.step == 3 && is_solved(s3)
            &&& s3.touches == seq![p0, p1, p2]
            &&& after_touch(s3, p3) == s3
        }),
{
    let s3 = after_touch(after_touch(after_touch(initial_session(), p0), p1), p2);
    assert(s3.touches =~= seq![p0, p1, p2]);
}

} // verus!
