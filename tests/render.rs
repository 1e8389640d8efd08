use calibrate_touchscreen::point::{target, Point, UNIT};
use calibrate_touchscreen::render::render_target;

fn pixel(buf: &[u8], width: usize, col: usize, row: usize) -> [u8; 4] {
    let i = 4 * (row * width + col);
    [buf[i], buf[i + 1], buf[i + 2], buf[i + 3]]
}

#[test]
fn centred_marker_is_brightest_and_corner_is_background() {
    let buf = render_target(100, 100, Point::new(500_000, 500_000));
    assert_eq!(buf.len(), 100 * 100 * 4);
    assert_eq!(pixel(&buf, 100, 50, 50), [255, 255, 255, 255]);
    assert_eq!(pixel(&buf, 100, 0, 0), [0, 0, 0x3F, 0xFF]);
    assert_eq!(pixel(&buf, 100, 51, 50), [31, 31, 0x3F, 0xFF]);
    assert_eq!(pixel(&buf, 100, 0, 99), [62, 62, 0x3F, 0xFF]);
}

#[test]
fn marker_bands_darken_outwards() {
    let buf = render_target(400, 300, target(0));
    assert_eq!(buf.len(), 400 * 300 * 4);
    assert_eq!(pixel(&buf, 400, 80, 120), [255, 255, 255, 255]);
    assert_eq!(pixel(&buf, 400, 82, 121), [255, 255, 255, 255]);
    assert_eq!(pixel(&buf, 400, 83, 120), [191, 191, 191, 255]);
    assert_eq!(pixel(&buf, 400, 84, 120), [127, 127, 127, 255]);
    assert_eq!(pixel(&buf, 400, 83, 123), [63, 63, 63, 255]);
    assert_eq!(pixel(&buf, 400, 84, 122), [63, 63, 63, 255]);
    assert_eq!(pixel(&buf, 400, 85, 120), [25, 25, 0x3F, 0xFF]);
}

#[test]
fn outermost_band_is_clamped_to_black() {
    let buf = render_target(240, 240, Point::new(500_000, 500_000));
    assert_eq!(pixel(&buf, 240, 122, 122), [0, 0, 0, 255]);
    assert_eq!(pixel(&buf, 240, 121, 120), [255, 255, 255, 255]);
    assert_eq!(pixel(&buf, 240, 122, 120), [127, 127, 127, 255]);
    assert_eq!(pixel(&buf, 240, 123, 120), [31, 31, 0x3F, 0xFF]);
}

#[test]
fn small_surface_has_no_marker() {
    let buf = render_target(10, 10, Point::new(500_000, 500_000));
    assert_eq!(buf.len(), 400);
    assert_eq!(pixel(&buf, 10, 5, 5), [31, 31, 0x3F, 0xFF]);
    let one = render_target(1, 1, Point::new(0, 0));
    assert_eq!(one, vec![0, 0, 0x3F, 0xFF]);
}

#[test]
fn marker_at_far_corner() {
    let buf = render_target(160, 160, Point::new(UNIT, UNIT));
    assert_eq!(pixel(&buf, 160, 159, 159), [127, 127, 127, 255]);
    assert_eq!(pixel(&buf, 160, 157, 159), [62, 62, 0x3F, 0xFF]);
}

#[test]
fn every_pixel_is_opaque() {
    let buf = render_target(200, 120, target(2));
    assert!(buf.chunks(4).all(|px| px[3] == 0xFF));
}
