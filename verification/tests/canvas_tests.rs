use snipgrab::canvas::{Canvas, Rgba};

fn solid(width: u32, height: u32, c: Rgba) -> Canvas {
    let mut canvas = Canvas::new(width, height);
    for y in 0..height {
        for x in 0..width {
            canvas.put_pixel(x, y, c);
        }
    }
    canvas
}

const WHITE: Rgba = Rgba { r: 255, g: 255, b: 255, a: 255 };
const ORANGE_OPAQUE: Rgba = Rgba { r: 255, g: 165, b: 0, a: 255 };
const ORANGE_HALF: Rgba = Rgba { r: 255, g: 165, b: 0, a: 128 };

#[test]
fn fully_opaque_overlay_replaces_every_pixel() {
    let base = solid(3, 2, WHITE);
    let overlay = solid(3, 2, ORANGE_OPAQUE);
    let out = Canvas::blend(&base, &overlay);
    for y in 0..2 {
        for x in 0..3 {
            assert_eq!(out.get_pixel(x, y), ORANGE_OPAQUE);
        }
    }
}

#[test]
fn fully_transparent_overlay_keeps_the_base() {
    let base = solid(3, 2, Rgba { r: 12, g: 34, b: 56, a: 255 });
    let overlay = solid(3, 2, Rgba { r: 200, g: 200, b: 200, a: 0 });
    let out = Canvas::blend(&base, &overlay);
    for y in 0..2 {
        for x in 0..3 {
            assert_eq!(out.get_pixel(x, y), Rgba { r: 12, g: 34, b: 56, a: 255 });
        }
    }
}

#[test]
fn half_alpha_blend_matches_the_integer_over_rule() {
    let base = solid(1, 1, WHITE);
    let overlay = solid(1, 1, ORANGE_HALF);
    let out = Canvas::blend(&base, &overlay);
    // channel = (base * (255 - 128) + overlay * 128) / 255
    let expect = Rgba {
        r: ((255u32 * 127 + 255 * 128) / 255) as u8,
        g: ((255u32 * 127 + 165 * 128) / 255) as u8,
        b: ((255u32 * 127 + 0 * 128) / 255) as u8,
        a: ((255u32 * 127 + 128 * 128) / 255) as u8,
    };
    assert_eq!(out.get_pixel(0, 0), expect);
    assert_eq!(expect, Rgba { r: 255, g: 209, b: 127, a: 191 });
}

#[test]
fn crop_extracts_the_exact_region() {
    let mut src = Canvas::new(4, 4);
    for y in 0..4 {
        for x in 0..4 {
            src.put_pixel(x, y, Rgba { r: x as u8, g: y as u8, b: 0, a: 255 });
        }
    }
    let out = src.crop(1, 2, 2, 2);
    assert_eq!(out.width, 2);
    assert_eq!(out.height, 2);
    for y in 0..2 {
        for x in 0..2 {
            assert_eq!(
                out.get_pixel(x, y),
                Rgba { r: (x + 1) as u8, g: (y + 2) as u8, b: 0, a: 255 }
            );
        }
    }
}

#[test]
fn byte_round_trip_preserves_pixels() {
    let mut src = Canvas::new(2, 2);
    src.put_pixel(0, 0, Rgba { r: 1, g: 2, b: 3, a: 4 });
    src.put_pixel(1, 1, Rgba { r: 9, g: 8, b: 7, a: 6 });
    let bytes = src.to_rgba_bytes();
    assert_eq!(bytes.len(), 16);
    assert_eq!(&bytes[0..4], &[1, 2, 3, 4]);
    let back = Canvas::from_rgba_bytes(2, 2, &bytes);
    for y in 0..2 {
        for x in 0..2 {
            assert_eq!(back.get_pixel(x, y), src.get_pixel(x, y));
        }
    }
}

#[test]
fn resize_to_fit_preserves_aspect_ratio() {
    // 100x50 into 1200x500: the height ratio (10) binds, not the width
    // ratio (12), so the result is 1000x500.
    let src = solid(100, 50, ORANGE_OPAQUE);
    let out = src.resize_to_fit(1200, 500);
    assert_eq!(out.width, 1000);
    assert_eq!(out.height, 500);
    assert_eq!(out.pixels.len(), 1000 * 500);
}

#[test]
fn resize_to_fit_shrinks_on_the_width_ratio() {
    // 200x50 into 100x100: the width ratio (1/2) binds: 100x25.
    let src = solid(200, 50, WHITE);
    let out = src.resize_to_fit(100, 100);
    assert_eq!(out.width, 100);
    assert_eq!(out.height, 25);
    // A solid image stays solid under resampling of any quality.
    assert_eq!(out.get_pixel(50, 12), WHITE);
}

#[test]
fn duplicate_is_byte_exact() {
    let mut src = Canvas::new(2, 1);
    src.put_pixel(1, 0, Rgba { r: 5, g: 6, b: 7, a: 8 });
    let copy = src.duplicate();
    assert_eq!(copy.width, 2);
    assert_eq!(copy.get_pixel(0, 0), src.get_pixel(0, 0));
    assert_eq!(copy.get_pixel(1, 0), src.get_pixel(1, 0));
}
