use snipgrab::canvas::{Canvas, Rgba};
use snipgrab::edit::{Edit, EditButton, EditEffect};
use snipgrab::geometry::{Point, Rect};

const WHITE: Rgba = Rgba { r: 255, g: 255, b: 255, a: 255 };
const BLACK: Rgba = Rgba { r: 0, g: 0, b: 0, a: 255 };

fn white_canvas(width: u32, height: u32) -> Canvas {
    let mut canvas = Canvas::new(width, height);
    for y in 0..height {
        for x in 0..width {
            canvas.put_pixel(x, y, WHITE);
        }
    }
    canvas
}

fn fresh_editor() -> Edit {
    let mut e = Edit::new(white_canvas(100, 80));
    // A 400x300 widget: the canvas sits at (150,120)-(250,200).
    e.compute_layout(400, 300);
    e
}

#[test]
fn a_fresh_editor_starts_in_crop_mode() {
    let e = fresh_editor();
    assert_eq!(e.resizing, 1);
    assert!(!e.drawing && !e.adding_shapes && !e.highlighting && !e.pencil_selected);
    assert_eq!(e.color, BLACK);
    assert_eq!(e.stroke_width, 10);
    assert_eq!(e.history.cursor, 1);
    assert_eq!(e.dest_rect, Some(Rect::new(150, 120, 250, 200)));
    assert_eq!(e.scaling, (-150, -120));
}

#[test]
fn the_second_icon_arms_the_pencil() {
    let mut e = fresh_editor();
    let eff = e.select_button(EditButton::Second);
    assert_eq!(eff, EditEffect::Repaint);
    assert!(e.drawing && e.pencil_selected);
    assert_eq!(e.stroke_width, 3);
    assert_eq!(e.resizing, 0);
    // With the pencil armed, the third icon picks the medium size.
    e.select_button(EditButton::Third);
    assert_eq!(e.stroke_width, 6);
    assert_eq!(e.color_variant, 2);
    e.select_button(EditButton::Fourth);
    assert_eq!(e.stroke_width, 9);
}

#[test]
fn the_third_icon_arms_the_highlighter() {
    let mut e = fresh_editor();
    e.select_button(EditButton::Third);
    assert!(e.highlighting && e.drawing);
    assert_eq!(e.color, Rgba { r: 255, g: 165, b: 0, a: 128 });
    assert_eq!(e.stroke_width, 18);
    // Another press picks the yellow highlighter.
    e.select_button(EditButton::Third);
    assert_eq!(e.color, Rgba { r: 255, g: 255, b: 0, a: 128 });
    assert_eq!(e.color_variant, 2);
    e.select_button(EditButton::Fourth);
    assert_eq!(e.color, Rgba { r: 0, g: 255, b: 0, a: 128 });
}

#[test]
fn the_fourth_icon_enters_shape_mode() {
    let mut e = fresh_editor();
    e.select_button(EditButton::Fourth);
    assert!(e.adding_shapes && !e.drawing);
    assert_eq!(e.choosen_shape, 0);
    e.select_button(EditButton::Fourth);
    assert_eq!(e.choosen_shape, 2);
    e.select_button(EditButton::Third);
    assert_eq!(e.choosen_shape, 1);
    // The leading icon leaves shape mode for the crop tool.
    e.select_button(EditButton::First);
    assert!(!e.adding_shapes);
    assert_eq!(e.resizing, 1);
}

#[test]
fn a_drawing_gesture_blends_and_commits_on_release() {
    let mut e = fresh_editor();
    e.select_button(EditButton::Second);
    // Anchor inside the canvas area, then drag; widget (160,130) is
    // canvas (10,10).
    let eff = e.mouse_down(Point::new(160, 130), 400);
    assert_eq!(eff, EditEffect::Quiet);
    assert!(e.drawing);
    e.mouse_move(Point::new(170, 140));
    let eff = e.mouse_move(Point::new(180, 150));
    assert_eq!(eff, EditEffect::Repaint);
    assert!(e.temp_edit.is_some());
    let eff = e.mouse_up();
    assert_eq!(eff, EditEffect::Repaint);
    assert!(e.temp_edit.is_none());
    assert_eq!(e.history.cursor, 2);
    // The committed canvas carries the opaque black stroke.
    assert_eq!(e.history.current().get_pixel(10, 10), BLACK);
    assert_eq!(e.history.current().get_pixel(30, 30), BLACK);
    // Far corners stay white.
    assert_eq!(e.history.current().get_pixel(99, 0), WHITE);
}

#[test]
fn undo_and_redo_round_trip_an_edit() {
    let mut e = fresh_editor();
    e.select_button(EditButton::Second);
    e.mouse_down(Point::new(160, 130), 400);
    e.mouse_move(Point::new(170, 140));
    e.mouse_move(Point::new(180, 150));
    e.mouse_up();
    let edited: Vec<Rgba> = e.history.current().pixels.clone();
    let eff = e.select_button(EditButton::Undo);
    assert_eq!(eff, EditEffect::Repaint);
    assert_eq!(e.history.current().get_pixel(10, 10), WHITE);
    let eff = e.select_button(EditButton::Redo);
    assert_eq!(eff, EditEffect::Repaint);
    assert_eq!(e.history.current().pixels, edited);
    // Another redo has nothing to do.
    assert_eq!(e.select_button(EditButton::Redo), EditEffect::Quiet);
}

#[test]
fn crop_and_confirm_rescale_the_canvas() {
    let mut e = fresh_editor();
    // Drag a crop selection: widget (160,130)-(210,170) is the canvas
    // region (10,10)-(60,50).
    e.mouse_down(Point::new(160, 130), 400);
    assert_eq!(e.initial_point, Some(Point::new(160, 130)));
    let eff = e.mouse_move(Point::new(210, 170));
    assert_eq!(eff, EditEffect::Repaint);
    assert_eq!(e.selection, Some(Rect::new(160, 130, 210, 170)));
    let eff = e.mouse_up();
    assert_eq!(eff, EditEffect::Repaint);
    assert_eq!(e.resizing, 2);
    // The confirm button occupies the third bottom slot.
    let eff = e.select_button(EditButton::ConfirmResize);
    assert_eq!(eff, EditEffect::Repaint);
    assert_eq!(e.resizing, 1);
    assert_eq!(e.selection, None);
    assert_eq!(e.history.cursor, 2);
    // The 50x40 crop grows to the fixed footprint, aspect preserved:
    // min(1200/50, 500/40) = 12.5, so 625x500.
    assert_eq!(e.history.current().width, 625);
    assert_eq!(e.history.current().height, 500);
}

#[test]
fn shape_mode_renders_a_transient_overlay() {
    let mut e = fresh_editor();
    e.select_button(EditButton::Fourth);
    e.select_button(EditButton::Third);
    assert_eq!(e.choosen_shape, 1);
    e.mouse_down(Point::new(160, 130), 400);
    let eff = e.mouse_move(Point::new(200, 160));
    assert_eq!(eff, EditEffect::Repaint);
    let overlay = e.temp_edit.as_ref().unwrap();
    assert_eq!(overlay.width, 100);
    assert_eq!(overlay.height, 80);
    // The rectangle outline passes through the canvas corner (10,10).
    assert_eq!(overlay.get_pixel(10, 10), BLACK);
    // The interior stays clear.
    assert_eq!(overlay.get_pixel(25, 25), Rgba { r: 0, g: 0, b: 0, a: 0 });
    // Release commits the outline over the white canvas.
    e.mouse_up();
    assert_eq!(e.history.current().get_pixel(10, 10), BLACK);
    assert_eq!(e.history.current().get_pixel(25, 25), WHITE);
}

#[test]
fn clicking_the_canvas_after_a_confirmed_crop_restarts_selecting() {
    let mut e = fresh_editor();
    e.mouse_down(Point::new(160, 130), 400);
    e.mouse_move(Point::new(210, 170));
    e.mouse_up();
    assert_eq!(e.resizing, 2);
    e.mouse_down(Point::new(180, 150), 400);
    assert_eq!(e.resizing, 1);
    assert_eq!(e.selection, None);
}

#[test]
fn save_button_requests_an_export() {
    let mut e = fresh_editor();
    let eff = e.select_button(EditButton::Save);
    assert_eq!(eff, EditEffect::SaveRequested);
    assert_eq!(e.resizing, 0);
}
