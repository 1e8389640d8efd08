//! Synthesis of the calibration target image.

use vstd::prelude::*;
use crate::point::{Point, UNIT};

verus! {

/// Radius in pixels of the marker drawn on a `width` by `height` surface.
pub open spec fn marker_radius(width: int, height: int) -> int {
    (if width >= height {
        width
    } else {
        height
    }) / 80
}

/// Pixel position of a normalized coordinate `at` along a surface `extent`
/// pixels long, rounded down.
pub open spec fn marker_centre(extent: int, at: int) -> int {
    extent * at / (UNIT as int)
}

/// Grey level at squared distance `d2` from the centre of a marker of radius
/// `r`: four bands, each 64 levels darker than the one inside it, never below
/// zero. A marker too small to have bands is drawn at full brightness.
pub open spec fn band_level(d2: int, r: int) -> int {
    let q = r * r / 4;
    let band = if q == 0 {
        0
    } else {
        d2 / q
    };
    let v = 255 - 64 * band;
    if v < 0 {
        0
    } else {
        v
    }
}

/// Blue, green, red and alpha of the pixel in column `col` and row `row` of
/// the target image: a grey bullseye inside the marker, and outside it a
/// background whose blue and green rise from top to bottom.
pub open spec fn pixel(width: int, height: int, target: Point, col: int, row: int) -> Seq<u8> {
    let cx = marker_centre(width, target.x as int);
    let cy = marker_centre(height, target.y as int);
    let r = marker_radius(width, height);
    let d2 = (col - cx) * (col - cx) + (row - cy) * (row - cy);
    if d2 < r * r {
        let v = band_level(d2, r) as u8;
        seq![v, v, v, 0xFFu8]
    } else {
        let g = (0x3F * row / height) as u8;
        seq![g, g, 0x3Fu8, 0xFFu8]
    }
}

/// The `i`-th pixel of the image, counting row by row from the top left.
pub open spec fn pixel_at(width: int, height: int, target: Point, i: int) -> Seq<u8> {
    pixel(width, height, target, i % width, i / width)
}

/// `buf` is the full target image: `width * height` pixels of four bytes.
pub open spec fn is_image(buf: Seq<u8>, width: int, height: int, target: Point) -> bool {
    &&& buf.len() == width * height * 4
    &&& forall|i: int, c: int|
        0 <= i < width * height && 0 <= c < 4 ==> buf[4 * i + c] == #[trigger] pixel_at(
            width,
            height,
            target,
            i,
        )[c]
}

/// Colour of one pixel, given the marker's centre and radius.
fn shade(width: u32, height: u32, target: Point, cx: i128, cy: i128, r: i128, col: u32, row: u32) -> (px: [u8; 4])
    requires
        width >= 1,
        height >= 1,
        row < height,
        col < width,
        target.on_display(),
        cx == marker_centre(width as int, target.x as int),
        cy == marker_centre(height as int, target.y as int),
        r == marker_radius(width as int, height as int),
        0 <= cx <= width,
        0 <= cy <= height,
    ensures
        px@ == pixel(width as int, height as int, target, col as int, row as int),
{
    let dx = col as i128 - cx;
    let dy = row as i128 - cy;
    proof {
        assert(0 <= dx * dx <= 0x1_0000_0000 * 0x1_0000_0000) by (nonlinear_arith)
            requires
                -0x1_0000_0000 <= dx <= 0x1_0000_0000,
        ;
        assert(0 <= dy * dy <= 0x1_0000_0000 * 0x1_0000_0000) by (nonlinear_arith)
            requires
                -0x1_0000_0000 <= dy <= 0x1_0000_0000,
        ;
        assert(0 <= r * r <= 0x1_0000_0000 * 0x1_0000_0000) by (nonlinear_arith)
            requires
                0 <= r <= 0x1_0000_0000,
        ;
    }
    let d2 = dx * dx + dy * dy;
    let px: [u8; 4];
    if d2 < r * r {
        let q = r * r / 4;
        let band = if q == 0 {
            0
        } else {
            d2 / q
        };
        proof {
            if q > 0 {
                vstd::arithmetic::div_mod::lemma_div_nonincreasing(d2 as int, q as int);
            }
        }
        let v = 255 - 64 * band;
        let level: u8 = if v < 0 {
            0
        } else {
            v as u8
        };
        px = [level, level, level, 0xFF];
    } else {
        assert(0x3F * row / (height as int) < 0x3F) by (nonlinear_arith)
            requires
                row < height,
                height >= 1,
        ;
        let g = (0x3F * row as u64 / height as u64) as u8;
        px = [g, g, 0x3F, 0xFF];
    }
    assert(px@ =~= pixel(width as int, height as int, target, col as int, row as int));
    px
}

/// Renders the calibration target at normalized position `target` on a
/// `width` by `height` surface: row by row from the top, four bytes per pixel
/// in blue, green, red, alpha order, fully opaque.
pub fn render_target(width: u32, height: u32, target: Point) -> (buf: Vec<u8>)
    requires
        width >= 1,
        height >= 1,
        target.on_display(),
        width * height * 4 <= usize::MAX,
    ensures
        is_image(buf@, width as int, height as int, target),
{
    let w = width as i128;
    let h = height as i128;
    let unit = UNIT as i128;
    assert(0 <= w * target.x <= w * UNIT) by (nonlinear_arith)
        requires
            0 <= target.x <= UNIT,
            w >= 1,
    ;
    assert(0 <= h * target.y <= h * UNIT) by (nonlinear_arith)
        requires
            0 <= target.y <= UNIT,
            h >= 1,
    ;
    assert(w * UNIT <= 0x1_0000_0000 * 1_000_000) by (nonlinear_arith)
        requires
            w <= 0x1_0000_0000,
    ;
    assert(h * UNIT <= 0x1_0000_0000 * 1_000_000) by (nonlinear_arith)
        requires
            h <= 0x1_0000_0000,
    ;
    let cx = w * target.x as i128 / unit;
    let cy = h * target.y as i128 / unit;
    assert(cx <= w) by (nonlinear_arith)
        requires
            cx == w * target.x / (UNIT as int),
            w * target.x <= w * UNIT,
    ;
    assert(cy <= h) by (nonlinear_arith)
        requires
            cy == h * target.y / (UNIT as int),
            h * target.y <= h * UNIT,
    ;
    let r = (if width >= height {
        width
    } else {
        height
    }) as i128 / 80;
    let total: usize = width as usize * height as usize;
    let mut buf: Vec<u8> = Vec::new();
    let mut n: usize = 0;
    while n < total
        invariant
            width >= 1,
            height >= 1,
            target.on_display(),
            total == width * height,
            total * 4 <= usize::MAX,
            n <= total,
            cx == marker_centre(width as int, target.x as int),
            cy == marker_centre(height as int, target.y as int),
            r == marker_radius(width as int, height as int),
            0 <= cx <= width,
            0 <= cy <= height,
            buf@.len() == 4 * n,
            forall|i: int, c: int|
                0 <= i < n && 0 <= c < 4 ==> buf@[4 * i + c] == #[trigger] pixel_at(
                    width as int,
                    height as int,
                    target,
                    i,
                )[c],
        decreases total - n,
    {
        let col = n % (width as usize);
        let row = n / (width as usize);
        assert(row < height) by (nonlinear_arith)
            requires
                row == (n as int) / (width as int),
                n < width * height,
                width >= 1,
        ;
        let px = shade(width, height, target, cx, cy, r, col as u32, row as u32);
        buf.push(px[0]);
        buf.push(px[1]);
        buf.push(px[2]);
        buf.push(px[3]);
        assert forall|i: int, c: int| 0 <= i < n + 1 && 0 <= c < 4 implies buf@[4 * i + c]
            == #[trigger] pixel_at(width as int, height as int, target, i)[c] by {
            if i == n {
                assert(px@ == pixel_at(width as int, height as int, target, i));
            }
        }
        n = n + 1;
    }
    buf
}

} // verus!
