use snipgrab::canvas::{Canvas, Rgba};
use snipgrab::draw::{calculate_distance, calculate_radius, isqrt64, Stroke};
use snipgrab::geometry::Point;

const TRANSPARENT: Rgba = Rgba { r: 0, g: 0, b: 0, a: 0 };
const BLACK: Rgba = Rgba { r: 0, g: 0, b: 0, a: 255 };
const WHITE: Rgba = Rgba { r: 255, g: 255, b: 255, a: 255 };
const HIGHLIGHT: Rgba = Rgba { r: 255, g: 165, b: 0, a: 128 };

fn solid(width: u32, height: u32, c: Rgba) -> Canvas {
    let mut canvas = Canvas::new(width, height);
    for y in 0..height {
        for x in 0..width {
            canvas.put_pixel(x, y, c);
        }
    }
    canvas
}

#[test]
fn integer_square_roots_round_down() {
    assert_eq!(isqrt64(0), 0);
    assert_eq!(isqrt64(1), 1);
    assert_eq!(isqrt64(24), 4);
    assert_eq!(isqrt64(25), 5);
    assert_eq!(isqrt64(26), 5);
    assert_eq!(isqrt64(u64::MAX), 0xFFFF_FFFF);
}

#[test]
fn distances_follow_the_euclidean_rule() {
    let d = calculate_distance(&Point::new(0, 0), &Point::new(3, 4));
    assert_eq!(d, 5);
    let r = calculate_radius(Point::new(10, 10), Point::new(10, 17));
    assert_eq!(r, 7);
}

#[test]
fn highlighter_stroke_paints_a_band_of_full_thickness() {
    // Two points 50 px apart, width 18, half alpha: every column between
    // them carries an unbroken band of exactly 18 stroke-colored rows.
    let stroke = Stroke::new(
        vec![Point::new(50, 50), Point::new(100, 50)],
        HIGHLIGHT,
        18,
    );
    let overlay = stroke.draw((200, 120));
    assert_eq!(overlay.width, 200);
    assert_eq!(overlay.height, 120);
    for x in [50u32, 75, 100] {
        let mut band = 0;
        for y in 0..120 {
            if overlay.get_pixel(x, y) == HIGHLIGHT {
                band += 1;
            } else {
                assert_eq!(overlay.get_pixel(x, y), TRANSPARENT);
            }
        }
        assert!(band >= 18);
        assert_eq!(overlay.get_pixel(x, 50), HIGHLIGHT);
        assert_eq!(overlay.get_pixel(x, 67), HIGHLIGHT);
        assert_eq!(overlay.get_pixel(x, 49), TRANSPARENT);
        assert_eq!(overlay.get_pixel(x, 68), TRANSPARENT);
    }
}

#[test]
fn highlighter_over_white_shows_partial_transparency() {
    let stroke = Stroke::new(
        vec![Point::new(50, 50), Point::new(100, 50)],
        HIGHLIGHT,
        18,
    );
    let overlay = stroke.draw((200, 120));
    let base = solid(200, 120, WHITE);
    let out = Canvas::blend(&base, &overlay);
    let touched = out.get_pixel(75, 55);
    assert_ne!(touched, WHITE);
    assert_ne!(touched, HIGHLIGHT);
    assert_eq!(touched, Rgba { r: 255, g: 209, b: 127, a: 191 });
    // Pixels the stroke never reached stay pure white.
    assert_eq!(out.get_pixel(10, 10), WHITE);
}

#[test]
fn circle_octants_hit_the_four_compass_points() {
    let stroke = Stroke::new(Vec::new(), BLACK, 1);
    let img = stroke.draw_circle(Point::new(10, 10), 5, (30, 30));
    assert_eq!(img.get_pixel(15, 10), BLACK);
    assert_eq!(img.get_pixel(5, 10), BLACK);
    assert_eq!(img.get_pixel(10, 15), BLACK);
    assert_eq!(img.get_pixel(10, 5), BLACK);
    assert_eq!(img.get_pixel(10, 10), TRANSPARENT);
}

#[test]
fn rectangle_outline_leaves_the_interior_clear() {
    let stroke = Stroke::new(Vec::new(), BLACK, 2);
    let img = stroke.draw_enlarging_rectangle(Point::new(15, 15), Point::new(5, 5), (30, 30));
    assert_eq!(img.get_pixel(5, 5), BLACK);
    assert_eq!(img.get_pixel(10, 6), BLACK);
    assert_eq!(img.get_pixel(14, 10), BLACK);
    assert_eq!(img.get_pixel(10, 10), TRANSPARENT);
    assert_eq!(img.get_pixel(16, 10), TRANSPARENT);
}

#[test]
fn bresenham_line_connects_its_endpoints() {
    let stroke = Stroke::new(Vec::new(), BLACK, 2);
    let mut img = Canvas::new(20, 20);
    stroke.draw_line(&mut img, Point::new(5, 5), Point::new(9, 9));
    assert_eq!(img.get_pixel(5, 5), BLACK);
    assert_eq!(img.get_pixel(9, 9), BLACK);
    assert_eq!(img.get_pixel(7, 7), BLACK);
    assert_eq!(img.get_pixel(0, 0), TRANSPARENT);
    assert_eq!(img.get_pixel(15, 5), TRANSPARENT);
}

#[test]
fn degenerate_triangle_collapses_to_its_anchor() {
    let stroke = Stroke::new(Vec::new(), BLACK, 2);
    let img = stroke.draw_enlarging_triangle(Point::new(50, 50), Point::new(50, 50), (100, 100));
    assert_eq!(img.get_pixel(50, 50), BLACK);
    assert_eq!(img.get_pixel(49, 49), BLACK);
    assert_eq!(img.get_pixel(47, 47), TRANSPARENT);
}

#[test]
fn triangle_edges_are_drawn_for_a_real_drag() {
    let stroke = Stroke::new(Vec::new(), BLACK, 2);
    let img = stroke.draw_enlarging_triangle(Point::new(50, 50), Point::new(80, 50), (120, 120));
    // side = 30: the apex sits one circumradius up at (50, 50 - 17), the
    // base corners half a side aside and one inradius down, at (35, 58)
    // and (65, 58); the apex pixel carries the stroke.
    assert_eq!(img.get_pixel(50, 33), BLACK);
    assert_eq!(img.get_pixel(35, 58), BLACK);
    assert_eq!(img.get_pixel(65, 58), BLACK);
    assert_eq!(img.get_pixel(100, 100), TRANSPARENT);
}

#[test]
fn empty_stroke_draws_nothing() {
    let stroke = Stroke::new_empty();
    let img = stroke.draw((10, 10));
    for y in 0..10 {
        for x in 0..10 {
            assert_eq!(img.get_pixel(x, y), TRANSPARENT);
        }
    }
}
