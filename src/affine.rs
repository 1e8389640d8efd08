//! The affine calibration map and its exact three-point solve.

use vstd::prelude::*;
use crate::point::{cross, lemma_targets_not_collinear, target_seq, Point, UNIT};

verus! {

/// An affine map from touch coordinates to display coordinates. Each
/// coefficient is a fraction over the common denominator `den`, which is
/// positive for every map this library produces. In normalized units:
///
/// display.x = (a / den) * touch.x + (b / den) * touch.y + c / den
/// display.y = (d / den) * touch.x + (e / den) * touch.y + f / den
#[derive(Clone, Copy, Debug, PartialEq, Eq, Structural)]
pub struct Affine {
    pub a: i128,
    pub b: i128,
    pub c: i128,
    pub d: i128,
    pub e: i128,
    pub f: i128,
    pub den: i128,
}

/// Why no calibration map was computed.
#[derive(Clone, Copy, Debug, PartialEq, Eq, Structural)]
pub enum CalibrationError {
    /// The three touches lie on one line, so no unique map exists.
    Degenerate,
}

/// `m` sends `from` exactly to `to`. Coordinates are in steps of `1 / UNIT`,
/// so this is the equation of each axis multiplied through by `UNIT * den`.
pub open spec fn maps_to(m: Affine, from: Point, to: Point) -> bool {
    &&& m.a * from.x + m.b * from.y + m.c * UNIT == to.x * m.den
    &&& m.d * from.x + m.e * from.y + m.f * UNIT == to.y * m.den
}

/// The identity map: every coefficient `1` on the diagonal, `0` elsewhere.
pub open spec fn is_identity(m: Affine) -> bool {
    &&& m.den > 0
    &&& m.a == m.den && m.b == 0 && m.c == 0
    &&& m.d == 0 && m.e == m.den && m.f == 0
}

/// Cramer numerator of the touch-x coefficient for one display axis, whose
/// target values at the three points are `s0`, `s1`, `s2`.
pub open spec fn num_x(t0: Point, t1: Point, t2: Point, s0: int, s1: int, s2: int) -> int {
    (s0 - s2) * (t1.y - t2.y) - (s1 - s2) * (t0.y - t2.y)
}

/// Cramer numerator of the touch-y coefficient for one display axis.
pub open spec fn num_y(t0: Point, t1: Point, t2: Point, s0: int, s1: int, s2: int) -> int {
    (t0.x - t2.x) * (s1 - s2) - (s0 - s2) * (t1.x - t2.x)
}

/// Cramer numerator of the constant term for one display axis.
pub open spec fn num_1(t0: Point, t1: Point, t2: Point, s0: int, s1: int, s2: int) -> int {
    t0.y * (t2.x * s1 - t1.x * s2) + t1.y * (t0.x * s2 - t2.x * s0) + t2.y * (t1.x * s0
        - t0.x * s1)
}

/// `+1` or `-1`, whichever makes `k` times it positive (for non-zero `k`).
pub open spec fn sign_of(k: int) -> int {
    if k > 0 {
        1
    } else {
        -1
    }
}

/// `m` is the map given by Cramer's rule for the correspondences
/// `touch[j] -> target[j]`, scaled so that its denominator is positive.
pub open spec fn is_cramer_solution(m: Affine, target: Seq<Point>, touch: Seq<Point>) -> bool {
    let (t0, t1, t2) = (touch[0], touch[1], touch[2]);
    let (p0, p1, p2) = (target[0], target[1], target[2]);
    let k = cross(t0, t1, t2);
    let s = sign_of(k);
    &&& m.den == s * (UNIT * k)
    &&& m.a == s * (UNIT * num_x(t0, t1, t2, p0.x as int, p1.x as int, p2.x as int))
    &&& m.b == s * (UNIT * num_y(t0, t1, t2, p0.x as int, p1.x as int, p2.x as int))
    &&& m.c == s * num_1(t0, t1, t2, p0.x as int, p1.x as int, p2.x as int)
    &&& m.d == s * (UNIT * num_x(t0, t1, t2, p0.y as int, p1.y as int, p2.y as int))
    &&& m.e == s * (UNIT * num_y(t0, t1, t2, p0.y as int, p1.y as int, p2.y as int))
    &&& m.f == s * num_1(t0, t1, t2, p0.y as int, p1.y as int, p2.y as int)
}

/// Bound on the magnitude of every coefficient of a solved map.
pub const COEFF_LIMIT: i128 = 0x10_0000_0000_0000_0000_0000_0000;

/// The denominator is positive and no coefficient exceeds `COEFF_LIMIT` in
/// magnitude; every map this library solves is in range.
pub open spec fn in_range(m: Affine) -> bool {
    &&& 0 < m.den <= COEFF_LIMIT
    &&& -COEFF_LIMIT <= m.a <= COEFF_LIMIT
    &&& -COEFF_LIMIT <= m.b <= COEFF_LIMIT
    &&& -COEFF_LIMIT <= m.c <= COEFF_LIMIT
    &&& -COEFF_LIMIT <= m.d <= COEFF_LIMIT
    &&& -COEFF_LIMIT <= m.e <= COEFF_LIMIT
    &&& -COEFF_LIMIT <= m.f <= COEFF_LIMIT
}

/// `r` is the outcome of solving for the map that sends `touch[j]` to
/// `target[j]`: an error exactly when the touches lie on one line, and
/// otherwise the Cramer solution, which maps every touch to its target.
pub open spec fn solves(r: Result<Affine, CalibrationError>, target: Seq<Point>, touch: Seq<Point>) -> bool {
    &&& (r is Err <==> cross(touch[0], touch[1], touch[2]) == 0)
    &&& (r matches Err(e) ==> e == CalibrationError::Degenerate)
    &&& (r matches Ok(m) ==> {
        &&& is_cramer_solution(m, target, touch)
        &&& in_range(m)
        &&& forall|j: int| 0 <= j < 3 ==> maps_to(m, #[trigger] touch[j], target[j])
    })
}

proof fn lemma_mul_bounded(x: int, y: int, bx: int, by: int)
    by (nonlinear_arith)
    requires
        -bx <= x <= bx,
        -by <= y <= by,
    ensures
        -(bx * by) <= x * y <= bx * by,
{
}

proof fn lemma_expand_cross(x0: int, y0: int, x1: int, y1: int, x2: int, y2: int)
    by (nonlinear_arith)
    ensures
        (x0 - x2) * (y1 - y2) - (x1 - x2) * (y0 - y2) == x0 * y1 - x0 * y2 - x2 * y1 - x1 * y0
            + x1 * y2 + x2 * y0,
{
}

proof fn lemma_scale_six(s: int, p1: int, p2: int, p3: int, p4: int, p5: int, p6: int)
    by (nonlinear_arith)
    ensures
        s * (p1 - p2 - p3 - p4 + p5 + p6) == s * p1 - s * p2 - s * p3 - s * p4 + s * p5 + s * p6,
{
}

proof fn lemma_swap_assoc(a: int, b: int, c: int)
    by (nonlinear_arith)
    ensures
        a * (b * c) == (a * b) * c,
        a * (b * c) == (b * a) * c,
        a * (b * c) == (a * c) * b,
        a * (b * c) == b * (a * c),
        a * (b * c) == c * (a * b),
        a * (b * c) == c * (b * a),
{
}

proof fn lemma_constant_term(x0: int, y0: int, x1: int, y1: int, x2: int, y2: int, s0: int, s1: int, s2: int)
    ensures
        y0 * (x2 * s1 - x1 * s2) + y1 * (x0 * s2 - x2 * s0) + y2 * (x1 * s0 - x0 * s1) == s2 * ((x0
            - x2) * (y1 - y2) - (x1 - x2) * (y0 - y2)) - ((s0 - s2) * (y1 - y2) - (s1 - s2) * (y0
            - y2)) * x2 - ((x0 - x2) * (s1 - s2) - (s0 - s2) * (x1 - x2)) * y2,
{
    lemma_expand_cross(x0, y0, x1, y1, x2, y2);
    lemma_expand_cross(s0, y0, s1, y1, s2, y2);
    lemma_expand_cross(x0, s0, x1, s1, x2, s2);
    assert((s0 - s2) * (y1 - y2) - (s1 - s2) * (y0 - y2) == s0 * y1 - s0 * y2 - s2 * y1 - s1 * y0 + s1 * y2 + s2 * y0);
    assert((x0 - x2) * (s1 - s2) - (s0 - s2) * (x1 - x2) == x0 * s1 - x0 * s2 - x2 * s1 - x1 * s0 + x1 * s2 + x2 * s0) by (nonlinear_arith)
        requires
            (x0 - x2) * (s1 - s2) - (x1 - x2) * (s0 - s2) == x0 * s1 - x0 * s2 - x2 * s1 - x1 * s0 + x1 * s2 + x2 * s0,
    ;
    lemma_scale_six(s2, x0 * y1, x0 * y2, x2 * y1, x1 * y0, x1 * y2, x2 * y0);
    lemma_scale_six(x2, s0 * y1, s0 * y2, s2 * y1, s1 * y0, s1 * y2, s2 * y0);
    lemma_scale_six(y2, x0 * s1, x0 * s2, x2 * s1, x1 * s0, x1 * s2, x2 * s0);
    assert(y0 * (x2 * s1 - x1 * s2) == y0 * (x2 * s1) - y0 * (x1 * s2)) by (nonlinear_arith);
    assert(y1 * (x0 * s2 - x2 * s0) == y1 * (x0 * s2) - y1 * (x2 * s0)) by (nonlinear_arith);
    assert(y2 * (x1 * s0 - x0 * s1) == y2 * (x1 * s0) - y2 * (x0 * s1)) by (nonlinear_arith);
    lemma_swap_assoc(s2, x0, y1);
    lemma_swap_assoc(s2, x0, y2);
    lemma_swap_assoc(s2, x2, y1);
    lemma_swap_assoc(s2, x1, y0);
    lemma_swap_assoc(s2, x1, y2);
    lemma_swap_assoc(s2, x2, y0);
    lemma_swap_assoc(x2, s0, y1);
    lemma_swap_assoc(x2, s0, y2);
    lemma_swap_assoc(x2, s2, y1);
    lemma_swap_assoc(x2, s1, y0);
    lemma_swap_assoc(x2, s1, y2);
    lemma_swap_assoc(x2, s2, y0);
    lemma_swap_assoc(y2, x0, s1);
    lemma_swap_assoc(y2, x0, s2);
    lemma_swap_assoc(y2, x2, s1);
    lemma_swap_assoc(y2, x1, s0);
    lemma_swap_assoc(y2, x1, s2);
    lemma_swap_assoc(y2, x2, s0);
    lemma_swap_assoc(y0, x2, s1);
    lemma_swap_assoc(y0, x1, s2);
    lemma_swap_assoc(y1, x0, s2);
    lemma_swap_assoc(y1, x2, s0);
    assert(((s0 - s2) * (y1 - y2) - (s1 - s2) * (y0 - y2)) * x2 == x2 * ((s0 - s2) * (y1 - y2) - (s1 - s2) * (y0 - y2))) by (nonlinear_arith);
    assert(((x0 - x2) * (s1 - s2) - (s0 - s2) * (x1 - x2)) * y2 == y2 * ((x0 - x2) * (s1 - s2) - (s0 - s2) * (x1 - x2))) by (nonlinear_arith);
}

/// The differences form of one axis: weighting the touch-x and touch-y
/// numerators by a touch's offsets from the third touch gives its target
/// offset times the determinant.
proof fn lemma_axis_differences(dx0: int, dy0: int, dx1: int, dy1: int, ds0: int, ds1: int)
    ensures
        (ds0 * dy1 - ds1 * dy0) * dx0 + (dx0 * ds1 - ds0 * dx1) * dy0 == ds0 * (dx0 * dy1 - dx1 * dy0),
        (ds0 * dy1 - ds1 * dy0) * dx1 + (dx0 * ds1 - ds0 * dx1) * dy1 == ds1 * (dx0 * dy1 - dx1 * dy0),
{
    lemma_sub_times(ds0 * dy1, ds1 * dy0, dx0);
    lemma_sub_times(dx0 * ds1, ds0 * dx1, dy0);
    lemma_sub_times(ds0 * dy1, ds1 * dy0, dx1);
    lemma_sub_times(dx0 * ds1, ds0 * dx1, dy1);
    lemma_times_sub(ds0, dx0 * dy1, dx1 * dy0);
    lemma_times_sub(ds1, dx0 * dy1, dx1 * dy0);
    lemma_swap_assoc(ds0, dy1, dx0);
    lemma_swap_assoc(ds1, dy0, dx0);
    lemma_swap_assoc(dx0, ds1, dy0);
    lemma_swap_assoc(ds0, dx1, dy0);
    lemma_swap_assoc(ds0, dy1, dx1);
    lemma_swap_assoc(ds1, dy0, dx1);
    lemma_swap_assoc(dx0, ds1, dy1);
    lemma_swap_assoc(ds0, dx1, dy1);
    lemma_swap_assoc(ds1, dx0, dy1);
    lemma_swap_assoc(ds1, dx1, dy0);
    lemma_swap_assoc(ds0, dx0, dy1);
}

proof fn lemma_sub_times(a: int, b: int, c: int)
    by (nonlinear_arith)
    ensures
        (a - b) * c == a * c - b * c,
{
}

proof fn lemma_times_sub(a: int, b: int, c: int)
    by (nonlinear_arith)
    ensures
        a * (b - c) == a * b - a * c,
{
}

/// Cramer's rule solves each axis: the numerators weighted by a touch give
/// its target value times the determinant.
proof fn lemma_axis_solves(t0: Point, t1: Point, t2: Point, s0: int, s1: int, s2: int)
    ensures
        ({
            let k = cross(t0, t1, t2);
            let nx = num_x(t0, t1, t2, s0, s1, s2);
            let ny = num_y(t0, t1, t2, s0, s1, s2);
            let n1 = num_1(t0, t1, t2, s0, s1, s2);
            &&& nx * t0.x + ny * t0.y + n1 == s0 * k
            &&& nx * t1.x + ny * t1.y + n1 == s1 * k
            &&& nx * t2.x + ny * t2.y + n1 == s2 * k
        }),
{
    let (x0, y0, x1, y1, x2, y2) = (
        t0.x as int,
        t0.y as int,
        t1.x as int,
        t1.y as int,
        t2.x as int,
        t2.y as int,
    );
    let k = cross(t0, t1, t2);
    let nx = num_x(t0, t1, t2, s0, s1, s2);
    let ny = num_y(t0, t1, t2, s0, s1, s2);
    let n1 = num_1(t0, t1, t2, s0, s1, s2);
    lemma_constant_term(x0, y0, x1, y1, x2, y2, s0, s1, s2);
    assert(n1 == s2 * k - nx * x2 - ny * y2);
    lemma_axis_differences(x0 - x2, y0 - y2, x1 - x2, y1 - y2, s0 - s2, s1 - s2);
    assert(nx * (x0 - x2) + ny * (y0 - y2) == (s0 - s2) * k);
    assert(nx * (x1 - x2) + ny * (y1 - y2) == (s1 - s2) * k);
    assert(nx * t0.x + ny * t0.y + n1 == s0 * k) by (nonlinear_arith)
        requires
            n1 == s2 * k - nx * x2 - ny * y2,
            nx * (x0 - x2) + ny * (y0 - y2) == (s0 - s2) * k,
            x0 == t0.x,
            y0 == t0.y,
    ;
    assert(nx * t1.x + ny * t1.y + n1 == s1 * k) by (nonlinear_arith)
        requires
            n1 == s2 * k - nx * x2 - ny * y2,
            nx * (x1 - x2) + ny * (y1 - y2) == (s1 - s2) * k,
            x1 == t1.x,
            y1 == t1.y,
    ;
}

proof fn lemma_scaled_row(sg: int, nx: int, ny: int, n1: int, x: int, y: int, v: int, k: int)
    requires
        nx * x + ny * y + n1 == v * k,
    ensures
        (sg * (UNIT * nx)) * x + (sg * (UNIT * ny)) * y + (sg * n1) * UNIT == v * (sg * (UNIT * k)),
{
    assert((sg * (UNIT * nx)) * x == (sg * UNIT) * (nx * x)) by (nonlinear_arith);
    assert((sg * (UNIT * ny)) * y == (sg * UNIT) * (ny * y)) by (nonlinear_arith);
    assert((sg * n1) * UNIT == (sg * UNIT) * n1) by (nonlinear_arith);
    assert(v * (sg * (UNIT * k)) == (sg * UNIT) * (v * k)) by (nonlinear_arith);
    assert((sg * UNIT) * (nx * x) + (sg * UNIT) * (ny * y) + (sg * UNIT) * n1 == (sg * UNIT) * (nx
        * x + ny * y + n1)) by (nonlinear_arith);
}

/// Round trip: a map given by Cramer's rule for three touches that do not
/// lie on one line sends each touch exactly to its target.
pub proof fn lemma_solution_maps_touches_to_targets(
    m: Affine,
    target: Seq<Point>,
    touch: Seq<Point>,
)
    requires
        target.len() == 3,
        touch.len() == 3,
        cross(touch[0], touch[1], touch[2]) != 0,
        is_cramer_solution(m, target, touch),
    ensures
        m.den > 0,
        forall|j: int| 0 <= j < 3 ==> maps_to(m, #[trigger] touch[j], target[j]),
{
    let (t0, t1, t2) = (touch[0], touch[1], touch[2]);
    let (p0, p1, p2) = (target[0], target[1], target[2]);
    let k = cross(t0, t1, t2);
    let sg = sign_of(k);
    assert(m.den > 0) by (nonlinear_arith)
        requires
            m.den == sg * (UNIT * k),
            k != 0,
            sg == sign_of(k),
    ;
    let (xs0, xs1, xs2) = (p0.x as int, p1.x as int, p2.x as int);
    let (ys0, ys1, ys2) = (p0.y as int, p1.y as int, p2.y as int);
    lemma_axis_solves(t0, t1, t2, xs0, xs1, xs2);
    lemma_axis_solves(t0, t1, t2, ys0, ys1, ys2);
    let (ax, bx, cx) = (num_x(t0, t1, t2, xs0, xs1, xs2), num_y(t0, t1, t2, xs0, xs1, xs2), num_1(t0, t1, t2, xs0, xs1, xs2));
    let (ay, by, cy) = (num_x(t0, t1, t2, ys0, ys1, ys2), num_y(t0, t1, t2, ys0, ys1, ys2), num_1(t0, t1, t2, ys0, ys1, ys2));
    lemma_scaled_row(sg, ax, bx, cx, t0.x as int, t0.y as int, xs0, k);
    lemma_scaled_row(sg, ax, bx, cx, t1.x as int, t1.y as int, xs1, k);
    lemma_scaled_row(sg, ax, bx, cx, t2.x as int, t2.y as int, xs2, k);
    lemma_scaled_row(sg, ay, by, cy, t0.x as int, t0.y as int, ys0, k);
    lemma_scaled_row(sg, ay, by, cy, t1.x as int, t1.y as int, ys1, k);
    lemma_scaled_row(sg, ay, by, cy, t2.x as int, t2.y as int, ys2, k);
    assert forall|j: int| 0 <= j < 3 implies maps_to(m, #[trigger] touch[j], target[j]) by {
        if j == 0 {
        } else if j == 1 {
        } else {
        }
    }
}

/// When every touch lands exactly on its target (and the targets do not lie
/// on one line), the solution is the identity map.
pub proof fn lemma_identity_when_touches_hit_targets(m: Affine, target: Seq<Point>, touch: Seq<Point>)
    requires
        target.len() == 3,
        touch == target,
        cross(touch[0], touch[1], touch[2]) != 0,
        is_cramer_solution(m, target, touch),
    ensures
        is_identity(m),
{
    let (t0, t1, t2) = (touch[0], touch[1], touch[2]);
    let (x0, y0, x1, y1, x2, y2) = (
        t0.x as int,
        t0.y as int,
        t1.x as int,
        t1.y as int,
        t2.x as int,
        t2.y as int,
    );
    let k = cross(t0, t1, t2);
    let sg = sign_of(k);
    lemma_solution_maps_touches_to_targets(m, target, touch);
    assert(num_y(t0, t1, t2, x0, x1, x2) == 0) by (nonlinear_arith)
        requires
            num_y(t0, t1, t2, x0, x1, x2) == (x0 - x2) * (x1 - x2) - (x0 - x2) * (x1 - x2),
    ;
    assert(num_1(t0, t1, t2, x0, x1, x2) == 0) by (nonlinear_arith)
        requires
            num_1(t0, t1, t2, x0, x1, x2) == y0 * (x2 * x1 - x1 * x2) + y1 * (x0 * x2 - x2 * x0)
                + y2 * (x1 * x0 - x0 * x1),
    ;
    assert(num_x(t0, t1, t2, y0, y1, y2) == 0) by (nonlinear_arith)
        requires
            num_x(t0, t1, t2, y0, y1, y2) == (y0 - y2) * (y1 - y2) - (y1 - y2) * (y0 - y2),
    ;
    assert(num_y(t0, t1, t2, y0, y1, y2) == k) by (nonlinear_arith)
        requires
            num_y(t0, t1, t2, y0, y1, y2) == (x0 - x2) * (y1 - y2) - (y0 - y2) * (x1 - x2),
            k == (x0 - x2) * (y1 - y2) - (x1 - x2) * (y0 - y2),
    ;
    lemma_swap_assoc(y0, x2, y1);
    lemma_swap_assoc(y0, x1, y2);
    lemma_swap_assoc(y1, x0, y2);
    lemma_swap_assoc(y1, x2, y0);
    lemma_swap_assoc(y2, x1, y0);
    lemma_swap_assoc(y2, x0, y1);
    lemma_times_sub(y0, x2 * y1, x1 * y2);
    lemma_times_sub(y1, x0 * y2, x2 * y0);
    lemma_times_sub(y2, x1 * y0, x0 * y1);
    assert(num_1(t0, t1, t2, y0, y1, y2) == 0);
    assert(m.b == 0 && m.c == 0 && m.d == 0 && m.f == 0) by (nonlinear_arith)
        requires
            m.b == sg * (UNIT * 0),
            m.c == sg * 0,
            m.d == sg * (UNIT * 0),
            m.f == sg * 0,
    ;
}

/// Touching each of the fixed targets exactly always solves, and gives the
/// identity map.
pub proof fn lemma_touching_targets_gives_identity(r: Result<Affine, CalibrationError>)
    requires
        solves(r, target_seq(), target_seq()),
    ensures
        r matches Ok(m) && is_identity(m),
{
    lemma_targets_not_collinear();
    if let Ok(m) = r {
        lemma_identity_when_touches_hit_targets(m, target_seq(), target_seq());
    }
}

const B31: i128 = 0x8000_0000;

const B32: i128 = 0x1_0000_0000;

const B64: i128 = 0x1_0000_0000_0000_0000;

/// The three Cramer numerators of one display axis, whose target values at
/// the three touches are `s0`, `s1`, `s2`.
fn axis_numerators(touch: &[Point; 3], s0: i32, s1: i32, s2: i32) -> (r: (i128, i128, i128))
    ensures
        r.0 == num_x(touch@[0], touch@[1], touch@[2], s0 as int, s1 as int, s2 as int),
        r.1 == num_y(touch@[0], touch@[1], touch@[2], s0 as int, s1 as int, s2 as int),
        r.2 == num_1(touch@[0], touch@[1], touch@[2], s0 as int, s1 as int, s2 as int),
        -2 * B64 <= r.0 <= 2 * B64,
        -2 * B64 <= r.1 <= 2 * B64,
        -6 * B31 * B31 * B32 <= r.2 <= 6 * B31 * B31 * B32,
{
    let (x0, y0) = (touch[0].x as i128, touch[0].y as i128);
    let (x1, y1) = (touch[1].x as i128, touch[1].y as i128);
    let (x2, y2) = (touch[2].x as i128, touch[2].y as i128);
    let (s0, s1, s2) = (s0 as i128, s1 as i128, s2 as i128);
    proof {
        lemma_mul_bounded(s0 - s2, y1 - y2, B32 as int, B32 as int);
        lemma_mul_bounded(s1 - s2, y0 - y2, B32 as int, B32 as int);
        lemma_mul_bounded(x0 - x2, s1 - s2, B32 as int, B32 as int);
        lemma_mul_bounded(s0 - s2, x1 - x2, B32 as int, B32 as int);
        lemma_mul_bounded(x2 as int, s1 as int, B31 as int, B31 as int);
        lemma_mul_bounded(x1 as int, s2 as int, B31 as int, B31 as int);
        lemma_mul_bounded(x0 as int, s2 as int, B31 as int, B31 as int);
        lemma_mul_bounded(x2 as int, s0 as int, B31 as int, B31 as int);
        lemma_mul_bounded(x1 as int, s0 as int, B31 as int, B31 as int);
        lemma_mul_bounded(x0 as int, s1 as int, B31 as int, B31 as int);
        lemma_mul_bounded(y0 as int, x2 * s1 - x1 * s2, B31 as int, 2 * B31 * B31);
        lemma_mul_bounded(y1 as int, x0 * s2 - x2 * s0, B31 as int, 2 * B31 * B31);
        lemma_mul_bounded(y2 as int, x1 * s0 - x0 * s1, B31 as int, 2 * B31 * B31);
    }
    let nx = (s0 - s2) * (y1 - y2) - (s1 - s2) * (y0 - y2);
    let ny = (x0 - x2) * (s1 - s2) - (s0 - s2) * (x1 - x2);
    let n1 = y0 * (x2 * s1 - x1 * s2) + y1 * (x0 * s2 - x2 * s0) + y2 * (x1 * s0 - x0 * s1);
    (nx, ny, n1)
}

/// Solves for the affine map that sends each touch to the target at the same
/// index, by Cramer's rule. Fails exactly when the touches lie on one line.
pub fn solve(target: &[Point; 3], touch: &[Point; 3]) -> (r: Result<Affine, CalibrationError>)
    ensures
        solves(r, target@, touch@),
{
    let (x0, y0) = (touch[0].x as i128, touch[0].y as i128);
    let (x1, y1) = (touch[1].x as i128, touch[1].y as i128);
    let (x2, y2) = (touch[2].x as i128, touch[2].y as i128);
    proof {
        lemma_mul_bounded(x0 - x2, y1 - y2, B32 as int, B32 as int);
        lemma_mul_bounded(x1 - x2, y0 - y2, B32 as int, B32 as int);
    }
    let k = (x0 - x2) * (y1 - y2) - (x1 - x2) * (y0 - y2);
    if k == 0 {
        return Err(CalibrationError::Degenerate);
    }
    let (ax, bx, cx) = axis_numerators(touch, target[0].x, target[1].x, target[2].x);
    let (ay, by, cy) = axis_numerators(touch, target[0].y, target[1].y, target[2].y);
    let unit = UNIT as i128;
    proof {
        lemma_mul_bounded(unit as int, k as int, 1_000_000, 2 * B64);
        lemma_mul_bounded(unit as int, ax as int, 1_000_000, 2 * B64);
        lemma_mul_bounded(unit as int, bx as int, 1_000_000, 2 * B64);
        lemma_mul_bounded(unit as int, ay as int, 1_000_000, 2 * B64);
        lemma_mul_bounded(unit as int, by as int, 1_000_000, 2 * B64);
    }
    let m = if k > 0 {
        Affine {
            a: unit * ax,
            b: unit * bx,
            c: cx,
            d: unit * ay,
            e: unit * by,
            f: cy,
            den: unit * k,
        }
    } else {
        Affine {
            a: -(unit * ax),
            b: -(unit * bx),
            c: -cx,
            d: -(unit * ay),
            e: -(unit * by),
            f: -cy,
            den: -(unit * k),
        }
    };
    proof {
        lemma_solution_maps_touches_to_targets(m, target@, touch@);
    }
    Ok(m)
}

} // verus!
