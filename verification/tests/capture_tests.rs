use snipgrab::canvas::{Canvas, Rgba};
use snipgrab::capture::{origin_monitor, plan_capture, plan_full_desktop, stitch, CaptureError};
use snipgrab::geometry::{Point, Rect};
use snipgrab::monitor::Monitor;

fn monitor(id: u32, x: i64, width: u32, scale_percent: u32) -> Monitor {
    Monitor { id, x, y: 0, width, height: 1080, scale_percent }
}

fn solid(width: u32, height: u32, c: Rgba) -> Canvas {
    let mut canvas = Canvas::new(width, height);
    for y in 0..height {
        for x in 0..width {
            canvas.put_pixel(x, y, c);
        }
    }
    canvas
}

const RED: Rgba = Rgba { r: 255, g: 0, b: 0, a: 255 };
const BLUE: Rgba = Rgba { r: 0, g: 0, b: 255, a: 255 };

#[test]
fn two_monitor_selection_splits_at_the_boundary() {
    // Monitor A at x=0, width 1920, scale 1.0; monitor B at x=1920, same.
    // The selection (1800,100)-(2100,400) takes 120 columns from A and
    // 180 from B.
    let monitors = vec![monitor(0, 0, 1920, 100), monitor(1, 1920, 1920, 100)];
    let sel = Rect::new(1800, 100, 2100, 400);
    let frags = plan_capture(sel, &monitors, 0);
    assert_eq!(frags.len(), 2);
    assert_eq!(frags[0].monitor_index, 0);
    assert_eq!(frags[0].x, 1800);
    assert_eq!(frags[0].y, 100);
    assert_eq!(frags[0].width, 120);
    assert_eq!(frags[0].height, 300);
    assert_eq!(frags[1].monitor_index, 1);
    assert_eq!(frags[1].x, 0);
    assert_eq!(frags[1].y, 100);
    assert_eq!(frags[1].width, 180);
    assert_eq!(frags[1].height, 300);
}

#[test]
fn stitched_composite_is_banded_left_to_right() {
    // The two fragments of the boundary-spanning selection, captured as
    // solid colors, stitch to a 300x300 image: columns 0-119 from the
    // first monitor, columns 120-299 from the second.
    let frags = vec![solid(120, 300, RED), solid(180, 300, BLUE)];
    let out = stitch(&frags).unwrap();
    assert_eq!(out.width, 300);
    assert_eq!(out.height, 300);
    assert_eq!(out.get_pixel(0, 0), RED);
    assert_eq!(out.get_pixel(119, 150), RED);
    assert_eq!(out.get_pixel(120, 150), BLUE);
    assert_eq!(out.get_pixel(299, 299), BLUE);
}

#[test]
fn selection_inside_one_monitor_yields_one_fragment() {
    let monitors = vec![monitor(0, 0, 1920, 100), monitor(1, 1920, 1920, 100)];
    let sel = Rect::new(100, 50, 500, 450);
    let frags = plan_capture(sel, &monitors, 0);
    assert_eq!(frags.len(), 1);
    assert_eq!(frags[0].monitor_index, 0);
    assert_eq!(frags[0].x, 100);
    assert_eq!(frags[0].width, 400);
}

#[test]
fn scale_factor_converts_to_physical_pixels() {
    // A 2.0-scale monitor: logical coordinates halve on the way to
    // physical pixels.
    let monitors = vec![monitor(0, 0, 400, 200)];
    let sel = Rect::new(100, 0, 300, 100);
    let frags = plan_capture(sel, &monitors, 0);
    assert_eq!(frags.len(), 1);
    assert_eq!(frags[0].x, 50);
    assert_eq!(frags[0].width, 100);
    assert_eq!(frags[0].height, 50);
}

#[test]
fn selection_past_the_last_monitor_is_clipped() {
    let monitors = vec![monitor(0, 0, 1920, 100)];
    let sel = Rect::new(1800, 0, 2500, 100);
    let frags = plan_capture(sel, &monitors, 0);
    assert_eq!(frags.len(), 1);
    assert_eq!(frags[0].width, 120);
}

#[test]
fn full_desktop_plan_takes_every_monitor_whole() {
    let monitors = vec![monitor(0, 0, 1920, 100), monitor(1, 1920, 1280, 100)];
    let frags = plan_full_desktop(&monitors);
    assert_eq!(frags.len(), 2);
    assert_eq!(frags[0].monitor_index, 0);
    assert_eq!(frags[0].width, 1920);
    assert_eq!(frags[1].monitor_index, 1);
    assert_eq!(frags[1].width, 1280);
    assert_eq!(frags[1].x, 0);
    assert_eq!(frags[1].height, 1080);
}

#[test]
fn unequal_fragment_heights_are_a_geometry_error() {
    let frags = vec![solid(10, 20, RED), solid(10, 21, BLUE)];
    let err = match stitch(&frags) {
        Ok(_) => panic!("stitch accepted unequal heights"),
        Err(e) => e,
    };
    assert_eq!(err, CaptureError::UnequalFragmentHeights);
    assert_eq!(err.message(), "captured fragments differ in height");
}

#[test]
fn stitching_one_fragment_returns_it_unchanged() {
    let frags = vec![solid(7, 5, RED)];
    let out = stitch(&frags).unwrap();
    assert_eq!(out.width, 7);
    assert_eq!(out.height, 5);
    assert_eq!(out.get_pixel(6, 4), RED);
}

#[test]
fn a_point_outside_every_monitor_is_a_geometry_error() {
    let monitors = vec![monitor(0, 0, 1920, 100), monitor(1, 1920, 1920, 100)];
    assert_eq!(origin_monitor(Point::new(1000, 10), &monitors, 0), Ok(0));
    assert_eq!(origin_monitor(Point::new(2000, 10), &monitors, 0), Ok(1));
    let err = origin_monitor(Point::new(9000, 10), &monitors, 0);
    assert_eq!(err, Err(CaptureError::NoFragments));
    assert_eq!(
        CaptureError::NoFragments.message(),
        "no monitor contains the selection"
    );
}
