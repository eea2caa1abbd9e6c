use snipgrab::geometry::{Point, Rect};
use snipgrab::monitor::{compute_window_size, locate, translation_factor, Monitor};
use snipgrab::overlay::{
    get_button_position, OverlayEvent, OverlayOutcome, OverlayState, ScreenshotOverlay,
};

fn monitor(id: u32, x: i64, width: u32, scale_percent: u32) -> Monitor {
    Monitor { id, x, y: 0, width, height: 1080, scale_percent }
}

fn two_monitors() -> Vec<Monitor> {
    vec![monitor(0, 0, 1920, 100), monitor(1, 1920, 1920, 100)]
}

#[test]
fn window_size_spans_all_scaled_monitors() {
    let monitors = two_monitors();
    assert_eq!(compute_window_size(&monitors), (3840, 1080, 0, 0));
    let hidpi = vec![monitor(0, 0, 1920, 100), monitor(1, 1920, 1920, 150)];
    assert_eq!(compute_window_size(&hidpi), (4800, 1620, 0, 0));
    let shifted = vec![monitor(0, -1920, 1920, 100), monitor(1, 0, 1920, 100)];
    assert_eq!(compute_window_size(&shifted), (3840, 1080, -1920, 0));
}

#[test]
fn translation_is_the_leftmost_offset() {
    let shifted = vec![monitor(0, -1920, 1920, 100), monitor(1, 0, 1920, 100)];
    assert_eq!(translation_factor(&shifted), -1920);
    assert_eq!(translation_factor(&two_monitors()), 0);
}

#[test]
fn locate_attributes_points_horizontally() {
    let monitors = two_monitors();
    assert_eq!(locate(Point::new(500, 5000), &monitors, 0), Some(0));
    assert_eq!(locate(Point::new(2000, 10), &monitors, 0), Some(1));
    assert_eq!(locate(Point::new(5000, 10), &monitors, 0), None);
}

#[test]
fn buttons_sit_below_the_selection_when_there_is_room() {
    let m = monitor(0, 0, 1920, 100);
    let sel = Rect::new(500, 500, 800, 700);
    let (lx, ly, rx, ry) = get_button_position(&m, &sel);
    assert_eq!((lx, ly), (650 - 62, 730));
    assert_eq!((rx, ry), (680, 730));
}

#[test]
fn buttons_move_above_a_selection_near_the_bottom() {
    let m = monitor(0, 0, 1920, 100);
    let sel = Rect::new(500, 900, 800, 1070);
    let (_lx, ly, _rx, ry) = get_button_position(&m, &sel);
    assert_eq!(ly, 900 - 62);
    assert_eq!(ry, 900 - 62);
}

#[test]
fn drag_release_and_confirm_capture_the_selection() {
    let monitors = two_monitors();
    let mut overlay = ScreenshotOverlay::new();
    let mut selection: Option<Rect> = None;

    let o = overlay.event(
        OverlayEvent::MouseDown(Point::new(500, 500)),
        &mut selection,
        &monitors,
        3840,
    );
    assert_eq!(o, OverlayOutcome::Pending { repaint: false });
    assert_eq!(overlay.start_point, Some(Point::new(500, 500)));
    assert_eq!(overlay.screen, Some(0));

    let o = overlay.event(
        OverlayEvent::MouseMove(Point::new(800, 700)),
        &mut selection,
        &monitors,
        3840,
    );
    assert_eq!(o, OverlayOutcome::Pending { repaint: true });
    assert_eq!(selection, Some(Rect::new(500, 500, 800, 700)));

    let o = overlay.event(
        OverlayEvent::MouseUp(Point::new(800, 700)),
        &mut selection,
        &monitors,
        3840,
    );
    assert_eq!(o, OverlayOutcome::Pending { repaint: true });
    assert_eq!(overlay.overlay_state, OverlayState::ButtonsShown);

    // The confirm button sits 30 px under the selection, left of center.
    let o = overlay.event(
        OverlayEvent::MouseDown(Point::new(600, 740)),
        &mut selection,
        &monitors,
        3840,
    );
    assert_eq!(
        o,
        OverlayOutcome::Captured {
            selection: Rect::new(500, 500, 800, 700),
            monitor_index: 0,
            translation: 0,
        }
    );
}

#[test]
fn the_broom_clears_the_selection_and_restarts() {
    let monitors = two_monitors();
    let mut overlay = ScreenshotOverlay::new();
    let mut selection: Option<Rect> = Some(Rect::new(500, 500, 800, 700));
    overlay.set_screen(0);
    overlay.overlay_state = OverlayState::ButtonsShown;

    // The cancel button sits 30 px right of the selection center.
    let o = overlay.event(
        OverlayEvent::MouseDown(Point::new(690, 740)),
        &mut selection,
        &monitors,
        3840,
    );
    assert_eq!(o, OverlayOutcome::Pending { repaint: true });
    assert_eq!(selection, None);
    assert_eq!(overlay.overlay_state, OverlayState::Selecting);
    assert_eq!(overlay.start_point, None);
}

#[test]
fn the_back_affordance_cancels_the_session() {
    let monitors = two_monitors();
    let mut overlay = ScreenshotOverlay::new();
    let mut selection: Option<Rect> = None;
    // The back affordance is centered over the first monitor: its box
    // starts at 3840 / 4 - 64 = 896.
    let o = overlay.event(
        OverlayEvent::MouseDown(Point::new(900, 30)),
        &mut selection,
        &monitors,
        3840,
    );
    assert_eq!(o, OverlayOutcome::Cancelled);
}

#[test]
fn a_move_without_a_drag_changes_nothing() {
    let monitors = two_monitors();
    let mut overlay = ScreenshotOverlay::new();
    let mut selection: Option<Rect> = None;
    let o = overlay.event(
        OverlayEvent::MouseMove(Point::new(100, 100)),
        &mut selection,
        &monitors,
        3840,
    );
    assert_eq!(o, OverlayOutcome::Pending { repaint: false });
    assert_eq!(selection, None);
}

#[test]
fn layout_grows_for_the_button_strip() {
    let mut overlay = ScreenshotOverlay::new();
    assert_eq!(overlay.layout_size(3840, 1080), (3840, 1080));
    overlay.overlay_state = OverlayState::ButtonsShown;
    assert_eq!(overlay.layout_size(3840, 1080), (3840, 1114));
}

#[test]
fn point_in_screen_ignores_vertical_bounds() {
    let overlay = ScreenshotOverlay::new();
    let m = monitor(0, 0, 1920, 100);
    assert!(overlay.is_point_in_screen(Point::new(500, 99999), &m, 0));
    assert!(!overlay.is_point_in_screen(Point::new(2500, 10), &m, 0));
    // A negative layout offset is compensated by the translation factor.
    assert!(overlay.is_point_in_screen(Point::new(500, 0), &m, 0));
}

#[test]
fn a_confirming_click_outside_the_selection_is_swallowed() {
    let monitors = two_monitors();
    let mut overlay = ScreenshotOverlay::new();
    let mut selection: Option<Rect> = Some(Rect::new(500, 500, 800, 700));
    overlay.set_screen(0);
    overlay.overlay_state = OverlayState::ButtonsShown;
    // (1200, 300) hits no affordance and lies outside the selection:
    // the press is swallowed with no state change.
    let o = overlay.event(
        OverlayEvent::MouseDown(Point::new(1200, 300)),
        &mut selection,
        &monitors,
        3840,
    );
    assert_eq!(o, OverlayOutcome::Pending { repaint: false });
    assert_eq!(selection, Some(Rect::new(500, 500, 800, 700)));
    assert_eq!(overlay.overlay_state, OverlayState::ButtonsShown);
    assert_eq!(overlay.start_point, None);
    assert!(!overlay.active);
}

#[test]
fn a_confirming_click_inside_the_selection_restarts_the_drag() {
    let monitors = two_monitors();
    let mut overlay = ScreenshotOverlay::new();
    let mut selection: Option<Rect> = Some(Rect::new(500, 500, 800, 700));
    overlay.set_screen(0);
    overlay.overlay_state = OverlayState::ButtonsShown;
    let o = overlay.event(
        OverlayEvent::MouseDown(Point::new(600, 600)),
        &mut selection,
        &monitors,
        3840,
    );
    assert_eq!(o, OverlayOutcome::Pending { repaint: false });
    assert_eq!(overlay.start_point, Some(Point::new(600, 600)));
    assert!(overlay.active);
    // The affordances stay up while the drag re-spans the selection.
    assert_eq!(overlay.overlay_state, OverlayState::ButtonsShown);
}

#[test]
fn attribution_subtracts_the_least_offset_on_shifted_layouts() {
    // Two monitors starting left of zero: surface-local points are
    // attributed after shifting the extents by the least offset.
    let monitors = vec![monitor(0, -1920, 1920, 100), monitor(1, 0, 1920, 100)];
    let mut overlay = ScreenshotOverlay::new();
    let mut selection: Option<Rect> = None;
    overlay.event(
        OverlayEvent::MouseDown(Point::new(500, 500)),
        &mut selection,
        &monitors,
        3840,
    );
    assert_eq!(overlay.screen, Some(0));
    let mut overlay = ScreenshotOverlay::new();
    overlay.event(
        OverlayEvent::MouseDown(Point::new(2500, 500)),
        &mut selection,
        &monitors,
        3840,
    );
    assert_eq!(overlay.screen, Some(1));
}

#[test]
fn a_point_no_monitor_contains_clears_the_attribution() {
    let monitors = two_monitors();
    let mut overlay = ScreenshotOverlay::new();
    overlay.set_screen(1);
    let mut selection: Option<Rect> = None;
    let o = overlay.event(
        OverlayEvent::MouseDown(Point::new(5000, 10)),
        &mut selection,
        &monitors,
        3840,
    );
    assert_eq!(o, OverlayOutcome::Pending { repaint: false });
    assert_eq!(overlay.screen, None);
}
