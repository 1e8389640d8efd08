//! Normalized display positions and the fixed calibration targets.

use vstd::prelude::*;

verus! {

/// One normalized display length in coordinate steps: `0` is the left (or
/// top) edge of a display, `UNIT` its right (or bottom) edge.
pub const UNIT: i32 = 1_000_000;

/// Number of calibration targets.
pub const TARGET_COUNT: usize = 3;

/// A position in normalized display coordinates, in millionths of the
/// display's width and height.
#[derive(Clone, Copy, Debug, PartialEq, Eq, Structural)]
pub struct Point {
    pub x: i32,
    pub y: i32,
}

impl Point {
    pub fn new(x: i32, y: i32) -> (p: Point)
        ensures
            p.x == x,
            p.y == y,
    {
        Point { x, y }
    }

    /// Both coordinates lie on the display.
    pub open spec fn on_display(self) -> bool {
        0 <= self.x <= UNIT && 0 <= self.y <= UNIT
    }
}

/// Twice the signed area of the triangle `p0 p1 p2`; zero exactly when the
/// three points lie on one line.
pub open spec fn cross(p0: Point, p1: Point, p2: Point) -> int {
    (p0.x - p2.x) * (p1.y - p2.y) - (p1.x - p2.x) * (p0.y - p2.y)
}

/// The calibration target presented at step `i`.
pub open spec fn target_at(i: int) -> Point {
    if i == 0 {
        Point { x: 200_000, y: 400_000 }
    } else if i == 1 {
        Point { x: 800_000, y: 600_000 }
    } else {
        Point { x: 400_000, y: 800_000 }
    }
}

/// All calibration targets, in presentation order.
pub open spec fn target_seq() -> Seq<Point> {
    seq![target_at(0), target_at(1), target_at(2)]
}

/// The calibration target presented at step `i`.
pub fn target(i: usize) -> (p: Point)
    requires
        i < TARGET_COUNT,
    ensures
        p == target_at(i as int),
        p.on_display(),
{
    if i == 0 {
        Point { x: 200_000, y: 400_000 }
    } else if i == 1 {
        Point { x: 800_000, y: 600_000 }
    } else {
        Point { x: 400_000, y: 800_000 }
    }
}

/// All calibration targets, in presentation order.
pub fn targets() -> (t: [Point; 3])
    ensures
        t@ == target_seq(),
{
    let t = [target(0), target(1), target(2)];
    assert(t@ =~= target_seq());
    t
}

/// The targets do not lie on one line, so any three touches that do not lie
/// on one line determine a unique affine calibration.
pub proof fn lemma_targets_not_collinear()
    ensures
        cross(target_seq()[0], target_seq()[1], target_seq()[2]) != 0,
        forall|i: int| 0 <= i < 3 ==> (#[trigger] target_seq()[i]).on_display(),
{
    let p0 = target_at(0);
    let p1 = target_at(1);
    let p2 = target_at(2);
    assert((p0.x - p2.x) * (p1.y - p2.y) == (-200_000int) * (-200_000int));
    assert((p1.x - p2.x) * (p0.y - p2.y) == 400_000int * (-400_000int));
    assert(cross(p0, p1, p2) == 200_000_000_000);
}

/// The normalized position, in steps of `1 / UNIT`, of the surface-local
/// coordinate `pos` (in 1/256 pixel) on a surface `extent` pixels long,
/// rounded down.
pub open spec fn normalized(pos: int, extent: int) -> int {
    (pos * UNIT) / (256 * extent)
}

/// Maps a surface-local coordinate, given in 1/256 pixel, to normalized
/// display coordinates, rounding down. `None` when the result does not fit a
/// coordinate (the position lies thousands of surface lengths away).
pub fn normalize(pos: i32, extent: u32) -> (r: Option<i32>)
    requires
        extent >= 1,
    ensures
        r is Some <==> i32::MIN <= normalized(pos as int, extent as int) <= i32::MAX,
        r matches Some(v) ==> v == normalized(pos as int, extent as int),
{
    assert(-0x8000_0000 * 1_000_000 <= pos * 1_000_000 <= 0x8000_0000 * 1_000_000) by (nonlinear_arith)
        requires
            -0x8000_0000 <= pos <= 0x8000_0000,
    ;
    let num: i64 = pos as i64 * UNIT as i64;
    let den: i64 = 256 * extent as i64;
    let q: i64;
    if num >= 0 {
        q = ((num as u64) / (den as u64)) as i64;
        assert(q == num / den);
    } else {
        let m: u64 = ((-num) as u64 + den as u64 - 1) / (den as u64);
        proof {
            let ghost mi = m as int;
            assert(den * mi <= -num + den - 1 < den * (mi + 1)) by (nonlinear_arith)
                requires
                    mi == (-num + den - 1) / (den as int),
                    den > 0,
                    -num + den - 1 >= 0,
            ;
            assert(0 <= num - (-mi) * den < den) by (nonlinear_arith)
                requires
                    den * mi <= -num + den - 1 < den * (mi + 1),
            ;
            vstd::arithmetic::div_mod::lemma_fundamental_div_mod_converse(
                num as int,
                den as int,
                -mi,
                num - (-mi) * den,
            );
            assert(mi <= 0x8000_0000 * 1_000_000) by (nonlinear_arith)
                requires
                    den * mi <= -num + den - 1,
                    den >= 256,
                    -num <= 0x8000_0000 * 1_000_000,
            ;
        }
        q = -(m as i64);
    }
    if q < i32::MIN as i64 || q > i32::MAX as i64 {
        None
    } else {
        Some(q as i32)
    }
}

} // verus!
