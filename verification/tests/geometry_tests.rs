use snipgrab::geometry::{
    apply_scaling, apply_scaling_to_point, create_border_rectangles, create_l_shaped_rectangles,
    surrounding_rectangles, Point, Rect,
};

#[test]
fn normalization_is_idempotent_and_order_blind() {
    let a = Point::new(2100, 400);
    let b = Point::new(1800, 100);
    let r1 = Rect::from_points(a, b);
    let r2 = Rect::from_points(b, a);
    assert_eq!(r1, r2);
    assert_eq!(r1.normalize(), r1);
    assert_eq!(r1, Rect::new(1800, 100, 2100, 400));
}

#[test]
fn normalize_settles_mixed_corners() {
    let r = Rect::new(10, 90, 50, 20);
    let n = r.normalize();
    assert_eq!(n, Rect::new(10, 20, 50, 90));
    assert_eq!(n.normalize(), n);
}

#[test]
fn point_in_rect_checks() {
    let p = Point::new(5, 5);
    assert!(p.is_inside_rect(Point::new(0, 0), 10, 10));
    assert!(!p.is_inside_rect(Point::new(6, 0), 10, 10));
    assert!(p.is_inside_direct_rect(Rect::new(0, 0, 5, 5)));
    assert!(!p.is_inside_direct_rect(Rect::new(0, 0, 4, 5)));
}

#[test]
fn clamp_keeps_selection_inside_bounds() {
    let sel = Rect::new(-10, 5, 120, 80);
    let bounds = Rect::new(0, 0, 100, 100);
    let c = sel.clamp_to(bounds);
    assert_eq!(c, Rect::new(0, 5, 100, 80));
}

#[test]
fn area_is_signed() {
    assert_eq!(Rect::new(0, 0, 10, 20).area(), 200);
    assert_eq!(Rect::new(10, 0, 0, 20).area(), -200);
    assert_eq!(Rect::new(3, 3, 3, 9).area(), 0);
}

#[test]
fn surrounding_rectangles_cover_all_four_sides() {
    let a = Rect::new(0, 0, 100, 100);
    let b = Rect::new(20, 30, 60, 70);
    let parts = surrounding_rectangles(a, b);
    assert_eq!(parts.len(), 4);
    assert_eq!(parts[0], Rect::new(20, 70, 60, 100));
    assert_eq!(parts[1], Rect::new(20, 0, 60, 30));
    assert_eq!(parts[2], Rect::new(0, 0, 20, 100));
    assert_eq!(parts[3], Rect::new(60, 0, 100, 100));
}

#[test]
fn surrounding_rectangles_skip_flush_sides() {
    let a = Rect::new(0, 0, 100, 100);
    let b = Rect::new(0, 0, 100, 40);
    let parts = surrounding_rectangles(a, b);
    assert_eq!(parts.len(), 1);
    assert_eq!(parts[0], Rect::new(0, 40, 100, 100));
}

#[test]
fn border_rectangles_hug_the_selection() {
    let parts = create_border_rectangles(Rect::new(10, 10, 20, 20), 3);
    assert_eq!(parts.len(), 4);
    assert_eq!(parts[0], Rect::new(7, 7, 23, 10));
    assert_eq!(parts[1], Rect::new(7, 20, 23, 23));
    assert_eq!(parts[2], Rect::new(7, 10, 10, 20));
    assert_eq!(parts[3], Rect::new(20, 10, 23, 20));
}

#[test]
fn l_shaped_handles_come_in_eight() {
    let parts = create_l_shaped_rectangles(Rect::new(50, 50, 150, 150), 40, 7, 25);
    assert_eq!(parts.len(), 8);
    assert_eq!(
        parts[0],
        Rect::new(50 - 25 + 7, 150 + 25 - 40, 50 - 25, 150 + 25)
    );
}

#[test]
fn scaling_translates_points() {
    let p = apply_scaling_to_point((-150, -120), Point::new(160, 130));
    assert_eq!(p, Point::new(10, 10));
    let moved = apply_scaling((5, -5), &vec![Point::new(0, 0), Point::new(10, 10)]);
    assert_eq!(moved.len(), 2);
    assert_eq!(moved[0], Point::new(5, -5));
    assert_eq!(moved[1], Point::new(15, 5));
}
