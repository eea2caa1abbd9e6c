//! The monitor layout of the virtual desktop.
//!
//! A monitor has a top-left offset in the shared virtual-desktop coordinate
//! space, a pixel size and a scale factor (logical-to-physical ratio, kept
//! as a percentage so the model stays in integers). The layout is
//! enumerated once and ordered left to right; the helpers here derive the
//! bounds of the full-screen selection surface and attribute a point to the
//! monitor whose horizontal extent contains it. Vertical containment is
//! deliberately not checked: the layout is assumed horizontal.

use vstd::prelude::*;
use crate::geometry::{coord_ok, Point, COORD_LIMIT};

verus! {

/// Largest scale percentage the library works with (ten-fold pixel density).
pub const MAX_SCALE_PERCENT: u32 = 1000;

/// One attached display, immutable for the process lifetime.
#[derive(Clone, Copy, PartialEq, Eq, Structural, Debug)]
pub struct Monitor {
    pub id: u32,
    pub x: i64,
    pub y: i64,
    pub width: u32,
    pub height: u32,
    pub scale_percent: u32,
}

impl Monitor {
    pub open spec fn wf(self) -> bool {
        &&& coord_ok(self.x as int)
        &&& coord_ok(self.y as int)
        &&& self.width <= COORD_LIMIT
        &&& self.height <= COORD_LIMIT
        &&& 1 <= self.scale_percent <= MAX_SCALE_PERCENT
    }

    /// The monitor's right edge in virtual-desktop coordinates: its offset
    /// plus its width scaled by its own density factor.
    pub open spec fn scaled_right(self) -> int {
        self.x + (self.width as int) * (self.scale_percent as int) / 100
    }

    /// The monitor's bottom edge in virtual-desktop coordinates.
    pub open spec fn scaled_bottom(self) -> int {
        self.y + (self.height as int) * (self.scale_percent as int) / 100
    }

    /// Whether `px`, translated left by `translation`, falls inside this
    /// monitor's horizontal extent (borders included).
    pub open spec fn contains_x(self, px: int, translation: int) -> bool {
        self.x <= px - translation <= self.x + self.width
    }
}

proof fn lemma_scaled_extent_bounds(m: Monitor)
    requires
        m.wf(),
    ensures
        0 <= (m.width as int) * (m.scale_percent as int) <= 0x4000_0000 * 1000,
        0 <= (m.width as int) * (m.scale_percent as int) / 100 <= 0x4000_0000 * 10,
        0 <= (m.height as int) * (m.scale_percent as int) <= 0x4000_0000 * 1000,
        0 <= (m.height as int) * (m.scale_percent as int) / 100 <= 0x4000_0000 * 10,
{
    assert((0 <= (m.width as int) * (m.scale_percent as int) <= 0x4000_0000 * 1000) && (0 <= (
    m.height as int) * (m.scale_percent as int) <= 0x4000_0000 * 1000)) by (nonlinear_arith)
        requires
            0 <= m.width <= COORD_LIMIT,
            0 <= m.height <= COORD_LIMIT,
            0 <= m.scale_percent <= MAX_SCALE_PERCENT,
    ;
    assert((0 <= (m.width as int) * (m.scale_percent as int) / 100 <= 0x4000_0000 * 10) && (0 <= (
    m.height as int) * (m.scale_percent as int) / 100 <= 0x4000_0000 * 10)) by (nonlinear_arith)
        requires
            0 <= (m.width as int) * (m.scale_percent as int) <= 0x4000_0000 * 1000,
            0 <= (m.height as int) * (m.scale_percent as int) <= 0x4000_0000 * 1000,
    ;
}

/// The scaled right edge of a monitor, as executable arithmetic.
fn scaled_right_exec(m: &Monitor) -> (r: i64)
    requires
        m.wf(),
    ensures
        r == m.scaled_right(),
{
    proof {
        lemma_scaled_extent_bounds(*m);
    }
    let scaled: u64 = (m.width as u64) * (m.scale_percent as u64) / 100;
    m.x + (scaled as i64)
}

/// The scaled bottom edge of a monitor, as executable arithmetic.
fn scaled_bottom_exec(m: &Monitor) -> (r: i64)
    requires
        m.wf(),
    ensures
        r == m.scaled_bottom(),
{
    proof {
        lemma_scaled_extent_bounds(*m);
    }
    let scaled: u64 = (m.height as u64) * (m.scale_percent as u64) / 100;
    m.y + (scaled as i64)
}

pub open spec fn all_wf(monitors: Seq<Monitor>) -> bool {
    forall|i: int| 0 <= i < monitors.len() ==> (#[trigger] monitors[i]).wf()
}

/// The size and position of the full-screen selection surface: the bounding
/// box of every monitor's scaled extent. Returns
/// `(width, height, leftmost, topmost)`.
pub fn compute_window_size(monitors: &Vec<Monitor>) -> (r: (i64, i64, i64, i64))
    requires
        monitors@.len() >= 1,
        all_wf(monitors@),
    ensures
        forall|i: int|
            0 <= i < monitors@.len() ==> r.2 <= (#[trigger] monitors@[i]).x
                && (monitors@[i]).scaled_right() <= r.2 + r.0,
        forall|i: int|
            0 <= i < monitors@.len() ==> r.3 <= (#[trigger] monitors@[i]).y
                && (monitors@[i]).scaled_bottom() <= r.3 + r.1,
        exists|i: int| 0 <= i < monitors@.len() && (#[trigger] monitors@[i]).x == r.2,
        exists|i: int| 0 <= i < monitors@.len() && (#[trigger] monitors@[i]).y == r.3,
        exists|i: int|
            0 <= i < monitors@.len() && (#[trigger] monitors@[i]).scaled_right() == r.2 + r.0,
        exists|i: int|
            0 <= i < monitors@.len() && (#[trigger] monitors@[i]).scaled_bottom() == r.3 + r.1,
{
    let first = monitors[0];
    let mut leftmost: i64 = first.x;
    let mut topmost: i64 = first.y;
    let mut rightmost: i64 = scaled_right_exec(&first);
    let mut bottommost: i64 = scaled_bottom_exec(&first);
    proof {
        lemma_scaled_extent_bounds(first);
    }
    let mut i: usize = 1;
    while i < monitors.len()
        invariant
            1 <= i <= monitors@.len(),
            all_wf(monitors@),
            coord_ok(leftmost as int),
            coord_ok(topmost as int),
            -(COORD_LIMIT as int) <= rightmost <= 11 * (COORD_LIMIT as int),
            -(COORD_LIMIT as int) <= bottommost <= 11 * (COORD_LIMIT as int),
            forall|j: int|
                0 <= j < i ==> leftmost <= (#[trigger] monitors@[j]).x
                    && (monitors@[j]).scaled_right() <= rightmost,
            forall|j: int|
                0 <= j < i ==> topmost <= (#[trigger] monitors@[j]).y
                    && (monitors@[j]).scaled_bottom() <= bottommost,
            exists|j: int| 0 <= j < i && (#[trigger] monitors@[j]).x == leftmost,
            exists|j: int| 0 <= j < i && (#[trigger] monitors@[j]).y == topmost,
            exists|j: int| 0 <= j < i && (#[trigger] monitors@[j]).scaled_right() == rightmost,
            exists|j: int| 0 <= j < i && (#[trigger] monitors@[j]).scaled_bottom() == bottommost,
        decreases monitors@.len() - i,
    {
        let m = monitors[i];
        if m.x < leftmost {
            leftmost = m.x;
        }
        if m.y < topmost {
            topmost = m.y;
        }
        let right = scaled_right_exec(&m);
        if right > rightmost {
            rightmost = right;
        }
        let bottom = scaled_bottom_exec(&m);
        if bottom > bottommost {
            bottommost = bottom;
        }
        proof {
            lemma_scaled_extent_bounds(m);
        }
        i = i + 1;
    }
    (rightmost - leftmost, bottommost - topmost, leftmost, topmost)
}

/// The least monitor offset among the first `i` monitors.
pub open spec fn min_x_upto(monitors: Seq<Monitor>, i: int) -> int
    decreases i,
{
    if i <= 1 {
        monitors[0].x as int
    } else {
        let m = min_x_upto(monitors, i - 1);
        if monitors[i - 1].x < m {
            monitors[i - 1].x as int
        } else {
            m
        }
    }
}

/// The translation that moves the leftmost monitor to `x == 0`: the minimum
/// monitor offset over the whole layout.
pub fn translation_factor(monitors: &Vec<Monitor>) -> (t: i64)
    requires
        monitors@.len() >= 1,
        all_wf(monitors@),
    ensures
        t == min_x_upto(monitors@, monitors@.len() as int),
        forall|i: int| 0 <= i < monitors@.len() ==> t <= (#[trigger] monitors@[i]).x,
        exists|i: int| 0 <= i < monitors@.len() && (#[trigger] monitors@[i]).x == t,
        coord_ok(t as int),
    {
    let mut t: i64 = monitors[0].x;
    let mut i: usize = 1;
    while i < monitors.len()
        invariant
            1 <= i <= monitors@.len(),
            all_wf(monitors@),
            coord_ok(t as int),
            t == min_x_upto(monitors@, i as int),
            forall|j: int| 0 <= j < i ==> t <= (#[trigger] monitors@[j]).x,
            exists|j: int| 0 <= j < i && (#[trigger] monitors@[j]).x == t,
        decreases monitors@.len() - i,
    {
        if monitors[i].x < t {
            t = monitors[i].x;
        }
        i = i + 1;
    }
    t
}

/// Whether the point, translated back by `translation`, lies inside the
/// monitor's horizontal extent. Vertical bounds are intentionally ignored.
pub fn is_point_in_screen(point: Point, monitor: &Monitor, translation: i64) -> (r: bool)
    requires
        point.wf(),
        monitor.wf(),
        coord_ok(translation as int),
    ensures
        r == monitor.contains_x(point.x as int, translation as int),
{
    let translated = point.x - translation;
    translated >= monitor.x && translated <= monitor.x + monitor.width as i64
}

/// The first monitor at or after index `k` whose horizontal extent
/// contains `px` after translation, if any.
pub open spec fn locate_from(px: int, monitors: Seq<Monitor>, translation: int, k: int) -> Option<
    int,
>
    decreases monitors.len() - k,
{
    if k < 0 || k >= monitors.len() {
        None
    } else if monitors[k].contains_x(px, translation) {
        Some(k)
    } else {
        locate_from(px, monitors, translation, k + 1)
    }
}

/// The first monitor of the layout whose horizontal extent contains the
/// point; `None` when no monitor matches, in which case the caller must
/// treat the point as unassigned and capture nothing.
pub fn locate(point: Point, monitors: &Vec<Monitor>, translation: i64) -> (r: Option<usize>)
    requires
        point.wf(),
        all_wf(monitors@),
        coord_ok(translation as int),
    ensures
        r matches Some(i) ==> locate_from(point.x as int, monitors@, translation as int, 0)
            == Some(i as int),
        r is None ==> locate_from(point.x as int, monitors@, translation as int, 0) is None,
        match r {
            Some(i) => i < monitors@.len() && monitors@[i as int].contains_x(
                point.x as int,
                translation as int,
            ) && forall|j: int|
                0 <= j < i ==> !(#[trigger] monitors@[j]).contains_x(
                    point.x as int,
                    translation as int,
                ),
            None => forall|j: int|
                0 <= j < monitors@.len() ==> !(#[trigger] monitors@[j]).contains_x(
                    point.x as int,
                    translation as int,
                ),
        },
{
    let mut i: usize = 0;
    while i < monitors.len()
        invariant
            i <= monitors@.len(),
            point.wf(),
            all_wf(monitors@),
            coord_ok(translation as int),
            locate_from(point.x as int, monitors@, translation as int, 0) == locate_from(
                point.x as int,
                monitors@,
                translation as int,
                i as int,
            ),
            forall|j: int|
                0 <= j < i ==> !(#[trigger] monitors@[j]).contains_x(
                    point.x as int,
                    translation as int,
                ),
        decreases monitors@.len() - i,
    {
        let m = monitors[i];
        if is_point_in_screen(point, &m, translation) {
            return Some(i);
        }
        i = i + 1;
    }
    None
}

} // verus!
