use snipgrab::canvas::{Canvas, Rgba};
use snipgrab::history::EditHistory;

fn mark(v: u8) -> Canvas {
    let mut c = Canvas::new(1, 1);
    c.put_pixel(0, 0, Rgba { r: v, g: 0, b: 0, a: 255 });
    c
}

fn shade(h: &EditHistory) -> u8 {
    h.current().get_pixel(0, 0).r
}

#[test]
fn six_commits_from_fresh_history_evict_the_second_snapshot() {
    let mut h = EditHistory::new(mark(0));
    for v in 1..=6u8 {
        h.commit(mark(v));
    }
    assert_eq!(h.len(), 5);
    assert_eq!(h.cursor(), 5);
    assert_eq!(shade(&h), 6);
    // Walking all the way back lands on the 3rd snapshot ever taken: the
    // seed and the first commit were both evicted.
    for _ in 0..4 {
        assert!(h.undo());
    }
    assert_eq!(shade(&h), 2);
    assert!(!h.undo());
}

#[test]
fn history_never_exceeds_five_snapshots() {
    let mut h = EditHistory::new(mark(0));
    for v in 1..=20u8 {
        h.commit(mark(v));
        assert!(h.len() <= 5);
        assert!(h.cursor() <= h.len());
    }
}

#[test]
fn undo_then_redo_is_byte_exact() {
    let mut h = EditHistory::new(mark(10));
    h.commit(mark(20));
    h.commit(mark(30));
    let before: Vec<Rgba> = h.current().pixels.clone();
    assert!(h.undo());
    assert_eq!(shade(&h), 20);
    assert!(h.redo());
    assert_eq!(h.current().pixels, before);
    assert_eq!(shade(&h), 30);
}

#[test]
fn undo_at_the_oldest_snapshot_is_a_noop() {
    let mut h = EditHistory::new(mark(1));
    assert!(!h.undo());
    assert_eq!(h.cursor(), 1);
    assert_eq!(shade(&h), 1);
}

#[test]
fn redo_at_the_newest_snapshot_is_a_noop() {
    let mut h = EditHistory::new(mark(1));
    h.commit(mark(2));
    assert!(!h.redo());
    assert_eq!(h.cursor(), 2);
    assert_eq!(shade(&h), 2);
}

#[test]
fn committing_mid_history_discards_the_redo_steps() {
    let mut h = EditHistory::new(mark(0));
    h.commit(mark(1));
    h.commit(mark(2));
    assert!(h.undo());
    assert!(h.undo());
    h.commit(mark(9));
    assert_eq!(h.len(), 2);
    assert_eq!(h.cursor(), 2);
    assert_eq!(shade(&h), 9);
    assert!(!h.redo());
}
