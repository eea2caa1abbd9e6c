//! Planning and stitching of captures that span several monitors.
//!
//! Planning walks the monitor list rightward from the monitor the selection
//! starts on and cuts the selection into one sub-rectangle per monitor: a
//! monitor left of the remaining selection shifts it, a monitor that
//! contains its end takes the remainder, and one that does not clips the
//! capture at its right edge. Each cut is converted from virtual-desktop
//! coordinates to that monitor's physical pixels with that monitor's own
//! scale factor. Stitching then lays the captured fragments side by side,
//! left to right, into one canvas; fragments of unequal height are a
//! geometry error and produce no partial image.

use vstd::prelude::*;
use crate::canvas::{Canvas, Rgba, MAX_DIM};
use crate::geometry::{coord_ok, Rect, COORD_LIMIT};
use crate::monitor::{all_wf, Monitor};

verus! {

/// The geometry failures of a capture attempt. Device failures live with
/// the device code outside the library.
#[derive(Clone, Copy, PartialEq, Eq, Structural, Debug)]
pub enum CaptureError {
    /// The selection touched no monitor, so there is nothing to capture.
    NoFragments,
    /// Stitching met fragments of unequal heights.
    UnequalFragmentHeights,
}

impl CaptureError {
    /// A human-readable description of the failure.
    pub fn message(&self) -> (s: &'static str)
        ensures
            (*self is NoFragments) ==> s@ == "no monitor contains the selection"@,
            (*self is UnequalFragmentHeights) ==> s@ == "captured fragments differ in height"@,
    {
        match self {
            CaptureError::NoFragments => "no monitor contains the selection",
            CaptureError::UnequalFragmentHeights => "captured fragments differ in height",
        }
    }
}

/// One monitor's share of a capture: the physical sub-rectangle to grab
/// from it, in that monitor's own pixel coordinates.
#[derive(Clone, Copy, PartialEq, Eq, Structural, Debug)]
pub struct Fragment {
    pub monitor_index: usize,
    pub x: i64,
    pub y: i64,
    pub width: i64,
    pub height: i64,
}

/// A monitor's width in virtual-desktop (logical) units: its pixel width
/// scaled by its density factor.
pub open spec fn logical_width(m: Monitor) -> int {
    (m.width as int) * (m.scale_percent as int) / 100
}

/// The physical sub-rectangle that monitor `k` contributes, given the cut
/// `[lx0, lx0 + cap_w)` of the selection in coordinates local to that
/// monitor and the selection's vertical extent `[y0, y1)`.
pub open spec fn fragment_of(m: Monitor, k: int, lx0: int, cap_w: int, y0: int, y1: int) -> Fragment {
    Fragment {
        monitor_index: k as usize,
        x: (lx0 * 100 / (m.scale_percent as int)) as i64,
        y: ((y0 - m.y) * 100 / (m.scale_percent as int)) as i64,
        width: (cap_w * 100 / (m.scale_percent as int)) as i64,
        height: ((y1 - y0) * 100 / (m.scale_percent as int)) as i64,
    }
}

/// The fragments of a capture, walking the monitors rightward from index
/// `k` while the remaining selection `[lx0, lx1)` (local to monitor `k`) is
/// non-empty: a monitor wholly left of the selection shifts it by its own
/// width, any other monitor contributes the part of the selection inside
/// it, clipped at its right edge.
pub open spec fn plan_spec(
    monitors: Seq<Monitor>,
    k: int,
    lx0: int,
    lx1: int,
    y0: int,
    y1: int,
) -> Seq<Fragment>
    decreases monitors.len() - k,
{
    if k < 0 || k >= monitors.len() || lx1 <= lx0 {
        Seq::<Fragment>::empty()
    } else {
        let m = monitors[k];
        let lw = logical_width(m);
        if lx0 >= lw {
            plan_spec(monitors, k + 1, lx0 - lw, lx1 - lw, y0, y1)
        } else {
            let cap_end = if lx1 > lw {
                lw
            } else {
                lx1
            };
            seq![fragment_of(m, k, lx0, cap_end - lx0, y0, y1)] + plan_spec(
                monitors,
                k + 1,
                0,
                lx1 - lw,
                y0,
                y1,
            )
        }
    }
}

/// A non-negative quantity does not grow when divided by a positive one.
proof fn lemma_div_bound(x: int, d: int)
    requires
        0 <= x,
        1 <= d,
    ensures
        0 <= x / d <= x,
{
    assert(0 <= x / d <= x) by (nonlinear_arith)
        requires
            0 <= x,
            1 <= d,
    ;
}

proof fn lemma_logical_width_bounds(m: Monitor)
    requires
        m.wf(),
    ensures
        0 <= logical_width(m) <= 10 * (COORD_LIMIT as int),
{
    assert(0 <= (m.width as int) * (m.scale_percent as int) <= 1000 * (COORD_LIMIT as int))
        by (nonlinear_arith)
        requires
            0 <= m.width <= COORD_LIMIT,
            1 <= m.scale_percent <= 1000,
    ;
    assert((m.width as int) * (m.scale_percent as int) / 100 <= 10 * (COORD_LIMIT as int))
        by (nonlinear_arith)
        requires
            0 <= (m.width as int) * (m.scale_percent as int) <= 1000 * (COORD_LIMIT as int),
    ;
    lemma_div_bound((m.width as int) * (m.scale_percent as int), 100);
}

/// A monitor's logical width, as executable arithmetic.
fn logical_width_exec(m: &Monitor) -> (r: i64)
    requires
        m.wf(),
    ensures
        r == logical_width(*m),
        0 <= r <= 10 * (COORD_LIMIT as int),
{
    proof {
        lemma_logical_width_bounds(*m);
    }
    let scaled: u64 = (m.width as u64) * (m.scale_percent as u64) / 100;
    scaled as i64
}

/// The physical fragment of monitor `m`, as executable arithmetic.
fn fragment_exec(m: &Monitor, k: usize, lx0: i64, cap_w: i64, y0: i64, y1: i64) -> (f: Fragment)
    requires
        m.wf(),
        0 <= lx0 <= 4 * (COORD_LIMIT as int),
        0 <= cap_w <= 12 * (COORD_LIMIT as int),
        m.y <= y0 <= y1,
        coord_ok(y0 as int),
        coord_ok(y1 as int),
    ensures
        f == fragment_of(*m, k as int, lx0 as int, cap_w as int, y0 as int, y1 as int),
{
    proof {
        lemma_div_bound((lx0 as int) * 100, m.scale_percent as int);
        lemma_div_bound((cap_w as int) * 100, m.scale_percent as int);
        lemma_div_bound(((y0 - m.y) as int) * 100, m.scale_percent as int);
        lemma_div_bound(((y1 - y0) as int) * 100, m.scale_percent as int);
    }
    let scale = m.scale_percent as i64;
    Fragment {
        monitor_index: k,
        x: lx0 * 100 / scale,
        y: (y0 - m.y) * 100 / scale,
        width: cap_w * 100 / scale,
        height: (y1 - y0) * 100 / scale,
    }
}

/// Cuts a confirmed selection into per-monitor fragments, starting at the
/// monitor the selection's left edge was attributed to. The walk stops when
/// the selection is exhausted or the monitor list ends; a selection that
/// starts inside the origin monitor and has positive width always yields at
/// least one fragment.
pub fn plan_capture(selection: Rect, monitors: &Vec<Monitor>, origin_index: usize) -> (r: Vec<
    Fragment,
>)
    requires
        selection.wf(),
        selection.is_normalized(),
        all_wf(monitors@),
        origin_index < monitors@.len(),
        monitors@[origin_index as int].x <= selection.x0,
        forall|i: int|
            origin_index <= i < monitors@.len() ==> (#[trigger] monitors@[i]).y <= selection.y0,
    ensures
        r@ == plan_spec(
            monitors@,
            origin_index as int,
            selection.x0 - monitors@[origin_index as int].x,
            selection.x1 - monitors@[origin_index as int].x,
            selection.y0 as int,
            selection.y1 as int,
        ),
        (selection.x0 - monitors@[origin_index as int].x < logical_width(
            monitors@[origin_index as int],
        ) && selection.x0 < selection.x1) ==> r@.len() >= 1,
{
    let origin = monitors[origin_index];
    let y0 = selection.y0;
    let y1 = selection.y1;
    let ghost ilx0: int = selection.x0 - origin.x;
    let ghost ilx1: int = selection.x1 - origin.x;
    let mut lx0: i64 = selection.x0 - origin.x;
    let mut lx1: i64 = selection.x1 - origin.x;
    let mut k: usize = origin_index;
    let mut frags: Vec<Fragment> = Vec::new();
    while k < monitors.len() && lx1 > lx0
        invariant
            origin_index <= k <= monitors@.len(),
            all_wf(monitors@),
            selection.wf(),
            selection.is_normalized(),
            forall|i: int|
                origin_index <= i < monitors@.len() ==> (#[trigger] monitors@[i]).y
                    <= selection.y0,
            y0 == selection.y0,
            y1 == selection.y1,
            0 <= lx0 <= 4 * (COORD_LIMIT as int),
            -11 * (COORD_LIMIT as int) <= lx1 <= 4 * (COORD_LIMIT as int),
            plan_spec(monitors@, origin_index as int, ilx0, ilx1, y0 as int, y1 as int) == frags@
                + plan_spec(monitors@, k as int, lx0 as int, lx1 as int, y0 as int, y1 as int),
        decreases monitors@.len() - k,
    {
        let m = monitors[k];
        let lw = logical_width_exec(&m);
        let ghost pre = plan_spec(monitors@, k as int, lx0 as int, lx1 as int, y0 as int, y1 as int);
        if lx0 >= lw {
            proof {
                assert(pre == plan_spec(
                    monitors@,
                    k + 1,
                    lx0 - lw,
                    lx1 - lw,
                    y0 as int,
                    y1 as int,
                ));
            }
            lx0 = lx0 - lw;
            lx1 = lx1 - lw;
            k = k + 1;
        } else {
            let cap_end = if lx1 > lw {
                lw
            } else {
                lx1
            };
            let cap_w = cap_end - lx0;
            let f = fragment_exec(&m, k, lx0, cap_w, y0, y1);
            proof {
                assert(pre == seq![f] + plan_spec(
                    monitors@,
                    k + 1,
                    0,
                    lx1 - lw,
                    y0 as int,
                    y1 as int,
                ));
                assert(frags@.push(f) + plan_spec(
                    monitors@,
                    k + 1,
                    0,
                    lx1 - lw,
                    y0 as int,
                    y1 as int,
                ) =~= frags@ + pre);
            }
            frags.push(f);
            lx1 = lx1 - lw;
            lx0 = 0;
            k = k + 1;
        }
    }
    proof {
        assert(plan_spec(monitors@, k as int, lx0 as int, lx1 as int, y0 as int, y1 as int)
            =~= Seq::<Fragment>::empty());
        assert(frags@ + Seq::<Fragment>::empty() =~= frags@);
        if ilx0 < logical_width(monitors@[origin_index as int]) && ilx0 < ilx1 {
            assert(plan_spec(monitors@, origin_index as int, ilx0, ilx1, y0 as int, y1 as int).len()
                >= 1);
        }
    }
    frags
}

/// The monitor a capture starts on: the first one whose horizontal extent
/// contains the selection's top-left corner. Succeeds exactly when some
/// monitor contains the point; otherwise the point is unassigned and the
/// geometry error says nothing will be captured.
pub fn origin_monitor(
    point: crate::geometry::Point,
    monitors: &Vec<Monitor>,
    translation: i64,
) -> (r: Result<usize, CaptureError>)
    requires
        point.wf(),
        all_wf(monitors@),
        coord_ok(translation as int),
    ensures
        r is Ok <==> exists|j: int|
            0 <= j < monitors@.len() && (#[trigger] monitors@[j]).contains_x(
                point.x as int,
                translation as int,
            ),
        r matches Ok(i) ==> i < monitors@.len() && monitors@[i as int].contains_x(
            point.x as int,
            translation as int,
        ) && forall|j: int|
            0 <= j < i ==> !(#[trigger] monitors@[j]).contains_x(
                point.x as int,
                translation as int,
            ),
        r matches Err(e) ==> e == CaptureError::NoFragments,
{
    match crate::monitor::locate(point, monitors, translation) {
        Some(i) => Ok(i),
        None => Err(CaptureError::NoFragments),
    }
}

/// The full-desktop capture plan: every monitor in full, left to right.
pub fn plan_full_desktop(monitors: &Vec<Monitor>) -> (r: Vec<Fragment>)
    requires
        all_wf(monitors@),
    ensures
        r@.len() == monitors@.len(),
        forall|k: int|
            0 <= k < monitors@.len() ==> #[trigger] r@[k] == (Fragment {
                monitor_index: k as usize,
                x: 0,
                y: 0,
                width: monitors@[k].width as i64,
                height: monitors@[k].height as i64,
            }),
{
    let mut frags: Vec<Fragment> = Vec::new();
    let mut k: usize = 0;
    while k < monitors.len()
        invariant
            k <= monitors@.len(),
            all_wf(monitors@),
            frags@.len() == k,
            forall|j: int|
                0 <= j < k ==> #[trigger] frags@[j] == (Fragment {
                    monitor_index: j as usize,
                    x: 0,
                    y: 0,
                    width: monitors@[j].width as i64,
                    height: monitors@[j].height as i64,
                }),
        decreases monitors@.len() - k,
    {
        let m = monitors[k];
        frags.push(
            Fragment {
                monitor_index: k,
                x: 0,
                y: 0,
                width: m.width as i64,
                height: m.height as i64,
            },
        );
        k = k + 1;
    }
    frags
}

/// The summed width of the first `k` captured fragments: where fragment
/// `k`'s band starts in the stitched image.
pub open spec fn width_sum(frags: Seq<Canvas>, k: int) -> int
    decreases k,
{
    if k <= 0 {
        0
    } else {
        width_sum(frags, k - 1) + frags[k - 1].width
    }
}

/// Prefix sums of widths never decrease.
proof fn lemma_width_sum_monotone(frags: Seq<Canvas>, a: int, b: int)
    requires
        0 <= a <= b,
    ensures
        width_sum(frags, a) <= width_sum(frags, b),
    decreases b - a,
{
    if a < b {
        lemma_width_sum_monotone(frags, a, b - 1);
    }
}

/// Dropping the first fragment shifts prefix sums by its width.
proof fn lemma_width_sum_shift(frags: Seq<Canvas>, k: int)
    requires
        frags.len() >= 1,
        0 <= k < frags.len(),
    ensures
        width_sum(frags, k + 1) == (frags[0].width as int) + width_sum(frags.drop_first(), k),
    decreases k,
{
    if k == 0 {
        assert(width_sum(frags, 1) == width_sum(frags, 0) + frags[0].width);
        assert(width_sum(frags.drop_first(), 0) == 0);
    } else {
        lemma_width_sum_shift(frags, k - 1);
        assert(width_sum(frags, k + 1) == width_sum(frags, k) + frags[k].width);
        assert(width_sum(frags.drop_first(), k) == width_sum(frags.drop_first(), k - 1)
            + frags.drop_first()[k - 1].width);
        assert(frags.drop_first()[k - 1] == frags[k]);
    }
}

/// The pixel of the stitched row `y` at column `x`: the fragment bands are
/// laid out left to right in capture order.
pub open spec fn band_pixel(frags: Seq<Canvas>, x: int, y: int) -> Rgba
    decreases frags.len(),
{
    if frags.len() == 0 {
        Rgba { r: 0, g: 0, b: 0, a: 0 }
    } else if x < frags[0].width {
        frags[0].pix(x, y)
    } else {
        band_pixel(frags.drop_first(), x - frags[0].width, y)
    }
}

/// Inside fragment `k`'s band, the stitched pixel is that fragment's pixel.
proof fn lemma_band_pixel(frags: Seq<Canvas>, k: int, x: int, y: int)
    requires
        0 <= k < frags.len(),
        0 <= x < frags[k].width,
    ensures
        band_pixel(frags, width_sum(frags, k) + x, y) == frags[k].pix(x, y),
    decreases k,
{
    if k == 0 {
        assert(width_sum(frags, 0) == 0);
    } else {
        lemma_width_sum_monotone(frags, 1, k);
        assert(width_sum(frags, 1) == width_sum(frags, 0) + frags[0].width);
        assert(width_sum(frags, k) + x >= frags[0].width);
        lemma_width_sum_shift(frags, k - 1);
        assert(frags.drop_first()[k - 1] == frags[k]);
        lemma_band_pixel(frags.drop_first(), k - 1, x, y);
        assert(band_pixel(frags, width_sum(frags, k) + x, y) == band_pixel(
            frags.drop_first(),
            width_sum(frags, k) + x - frags[0].width,
            y,
        ));
    }
}

/// Whether every fragment has the same height as the first.
pub open spec fn equal_heights(frags: Seq<Canvas>) -> bool {
    forall|k: int| 0 <= k < frags.len() ==> (#[trigger] frags[k]).height == frags[0].height
}

/// Stitches captured fragments into one canvas, laying their pixel bands
/// side by side left to right. Succeeds exactly when all fragments share
/// one height; otherwise reports the geometry error and no partial image.
pub fn stitch(frags: &Vec<Canvas>) -> (r: Result<Canvas, CaptureError>)
    requires
        frags@.len() >= 1,
        forall|k: int| 0 <= k < frags@.len() ==> (#[trigger] frags@[k]).wf(),
        width_sum(frags@, frags@.len() as int) <= MAX_DIM,
    ensures
        r is Ok <==> equal_heights(frags@),
        r matches Ok(c) ==> {
            &&& c.wf()
            &&& c.width == width_sum(frags@, frags@.len() as int)
            &&& c.height == frags@[0].height
            &&& forall|k: int, x: int, y: int|
                0 <= k < frags@.len() && 0 <= x < frags@[k].width && 0 <= y < c.height
                    ==> c.pix(width_sum(frags@, k) + x, y) == #[trigger] frags@[k].pix(x, y)
        },
        r matches Err(e) ==> e == CaptureError::UnequalFragmentHeights,
{
    let n = frags.len();
    let h: u32 = frags[0].height;
    let mut k: usize = 1;
    while k < n
        invariant
            1 <= k <= n,
            n == frags@.len(),
            h == frags@[0].height,
            forall|j: int| 0 <= j < k ==> (#[trigger] frags@[j]).height == h,
        decreases n - k,
    {
        if frags[k].height != h {
            return Err(CaptureError::UnequalFragmentHeights);
        }
        k = k + 1;
    }
    let mut total: u64 = 0;
    let mut k: usize = 0;
    while k < n
        invariant
            0 <= k <= n,
            n == frags@.len(),
            forall|j: int| 0 <= j < n ==> (#[trigger] frags@[j]).wf(),
            width_sum(frags@, n as int) <= MAX_DIM,
            total == width_sum(frags@, k as int),
        decreases n - k,
    {
        proof {
            lemma_width_sum_monotone(frags@, k + 1, n as int);
        }
        total = total + frags[k].width as u64;
        k = k + 1;
    }
    let wide: u32 = total as u32;
    let mut pixels: Vec<Rgba> = Vec::new();
    let mut y: u32 = 0;
    while y < h
        invariant
            0 <= y <= h,
            n == frags@.len(),
            n >= 1,
            forall|j: int| 0 <= j < n ==> (#[trigger] frags@[j]).wf(),
            equal_heights(frags@),
            h == frags@[0].height,
            width_sum(frags@, n as int) <= MAX_DIM,
            wide == width_sum(frags@, n as int),
            h <= MAX_DIM,
            pixels@.len() == (y as int) * (wide as int),
            forall|t: int|
                0 <= t < pixels@.len() ==> #[trigger] pixels@[t] == band_pixel(
                    frags@,
                    t % (wide as int),
                    t / (wide as int),
                ),
        decreases h - y,
    {
        let mut k: usize = 0;
        while k < n
            invariant
                0 <= k <= n,
                y < h,
                n == frags@.len(),
                n >= 1,
                forall|j: int| 0 <= j < n ==> (#[trigger] frags@[j]).wf(),
                equal_heights(frags@),
                h == frags@[0].height,
                width_sum(frags@, n as int) <= MAX_DIM,
                wide == width_sum(frags@, n as int),
                h <= MAX_DIM,
                pixels@.len() == (y as int) * (wide as int) + width_sum(frags@, k as int),
                forall|t: int|
                    0 <= t < pixels@.len() ==> #[trigger] pixels@[t] == band_pixel(
                        frags@,
                        t % (wide as int),
                        t / (wide as int),
                    ),
            decreases n - k,
        {
            let fw: u32 = frags[k].width;
            proof {
                lemma_width_sum_monotone(frags@, 0, k as int);
                lemma_width_sum_monotone(frags@, k as int, n as int);
                lemma_width_sum_monotone(frags@, k + 1, n as int);
            }
            let mut x: u32 = 0;
            while x < fw
                invariant
                    0 <= x <= fw,
                    0 <= k < n,
                    y < h,
                    n == frags@.len(),
                    forall|j: int| 0 <= j < n ==> (#[trigger] frags@[j]).wf(),
                    equal_heights(frags@),
                    h == frags@[0].height,
                    width_sum(frags@, n as int) <= MAX_DIM,
                    wide == width_sum(frags@, n as int),
                    h <= MAX_DIM,
                    fw == frags@[k as int].width,
                    width_sum(frags@, k as int) + fw <= wide,
                    0 <= width_sum(frags@, k as int),
                    pixels@.len() == (y as int) * (wide as int) + width_sum(frags@, k as int) + (
                    x as int),
                    forall|t: int|
                        0 <= t < pixels@.len() ==> #[trigger] pixels@[t] == band_pixel(
                            frags@,
                            t % (wide as int),
                            t / (wide as int),
                        ),
                decreases fw - x,
            {
                let p = frags[k].get_pixel(x, y);
                proof {
                    let col = width_sum(frags@, k as int) + x;
                    let t = (y as int) * (wide as int) + col;
                    vstd::arithmetic::div_mod::lemma_fundamental_div_mod_converse(
                        t,
                        wide as int,
                        y as int,
                        col,
                    );
                    lemma_band_pixel(frags@, k as int, x as int, y as int);
                }
                pixels.push(p);
                x = x + 1;
            }
            proof {
                lemma_width_sum_monotone(frags@, 0, k as int);
            }
            k = k + 1;
        }
        proof {
            assert((y as int) * (wide as int) + (wide as int) == ((y as int) + 1) * (wide as int))
                by (nonlinear_arith);
        }
        y = y + 1;
    }
    let out = Canvas { width: wide, height: h, pixels };
    proof {
        crate::canvas::lemma_dims_product(wide as int, h as int);
        assert forall|k: int, x: int, y: int|
            0 <= k < frags@.len() && 0 <= x < frags@[k].width && 0 <= y < out.height implies
            out.pix(width_sum(frags@, k) + x, y) == frags@[k].pix(x, y) by {
            let col = width_sum(frags@, k) + x;
            lemma_width_sum_monotone(frags@, 0, k);
            lemma_width_sum_monotone(frags@, k + 1, frags@.len() as int);
            assert(col < wide);
            let t = y * (wide as int) + col;
            crate::canvas::lemma_pixel_index(wide as int, h as int, col, y);
            vstd::arithmetic::div_mod::lemma_fundamental_div_mod_converse(t, wide as int, y, col);
            lemma_band_pixel(frags@, k, x, y);
            assert(out.pix(col, y) == out.pixels@[t]);
        }
    }
    Ok(out)
}


/// Splitting a selection across two horizontally adjacent monitors: when
/// the selection starts at `x0` inside the first monitor (width `w1`) and
/// its width exceeds `w1 - x0`, the plan takes exactly two fragments — the
/// remaining `w1 - x0` columns of the first monitor, then the leftmost
/// columns of the second — in that left-to-right order, and their widths
/// sum to `min(selection.width, w1 - x0 + w2)`. Stitching such fragments
/// (see `stitch`) therefore yields an image of exactly that width whose
/// first band comes from the first monitor and whose rest comes from the
/// second.
proof fn lemma_times_100_div_100(v: int)
    ensures
        (v * 100) / 100 == v,
{
    assert((v * 100) / 100 == v) by (nonlinear_arith);
}

pub proof fn lemma_adjacent_monitors_span(m1: Monitor, m2: Monitor, sel: Rect)
    requires
        m1.wf(),
        m2.wf(),
        m1.scale_percent == 100,
        m2.scale_percent == 100,
        m1.width >= 1,
        m2.width >= 1,
        sel.wf(),
        sel.is_normalized(),
        m1.y <= sel.y0,
        m2.y <= sel.y0,
        m1.x <= sel.x0,
        sel.x0 - m1.x < m1.width,
        sel.x1 - m1.x > m1.width,
    ensures
        ({
            let lx0 = sel.x0 - m1.x;
            let lx1 = sel.x1 - m1.x;
            let w1 = m1.width as int;
            let w2 = m2.width as int;
            let frags = plan_spec(seq![m1, m2], 0, lx0, lx1, sel.y0 as int, sel.y1 as int);
            let first_w = w1 - lx0;
            let second_w = if lx1 - w1 <= w2 {
                lx1 - w1
            } else {
                w2
            };
            &&& frags.len() == 2
            &&& frags[0] == (Fragment {
                monitor_index: 0,
                x: lx0 as i64,
                y: (sel.y0 - m1.y) as i64,
                width: first_w as i64,
                height: (sel.y1 - sel.y0) as i64,
            })
            &&& frags[1] == (Fragment {
                monitor_index: 1,
                x: 0,
                y: (sel.y0 - m2.y) as i64,
                width: second_w as i64,
                height: (sel.y1 - sel.y0) as i64,
            })
            &&& first_w + second_w == if sel.width_spec() <= w1 - lx0 + w2 {
                sel.width_spec()
            } else {
                w1 - lx0 + w2
            }
        }),
{
    let monitors = seq![m1, m2];
    let lx0 = sel.x0 - m1.x;
    let lx1 = sel.x1 - m1.x;
    let w1 = m1.width as int;
    let w2 = m2.width as int;
    let y0 = sel.y0 as int;
    let y1 = sel.y1 as int;
    lemma_times_100_div_100(w1);
    lemma_times_100_div_100(w2);
    lemma_times_100_div_100(lx0);
    lemma_times_100_div_100(w1 - lx0);
    lemma_times_100_div_100(0);
    lemma_times_100_div_100(sel.y0 - m1.y);
    lemma_times_100_div_100(sel.y0 - m2.y);
    lemma_times_100_div_100(sel.y1 - sel.y0);
    lemma_times_100_div_100(if lx1 - w1 > w2 { w2 } else { lx1 - w1 });
    assert(logical_width(m1) == w1);
    assert(logical_width(m2) == w2);
    let rest1 = plan_spec(monitors, 1, 0, lx1 - w1, y0, y1);
    assert(plan_spec(monitors, 0, lx0, lx1, y0, y1) == seq![
        fragment_of(m1, 0, lx0, w1 - lx0, y0, y1),
    ] + rest1);
    let rest2 = plan_spec(monitors, 2, 0, lx1 - w1 - w2, y0, y1);
    let cap2 = if lx1 - w1 > w2 {
        w2
    } else {
        lx1 - w1
    };
    assert(rest1 == seq![fragment_of(m2, 1, 0, cap2, y0, y1)] + rest2);
    assert(rest2 =~= Seq::<Fragment>::empty());
    assert(fragment_of(m1, 0, lx0, w1 - lx0, y0, y1) == (Fragment {
        monitor_index: 0,
        x: lx0 as i64,
        y: (sel.y0 - m1.y) as i64,
        width: (w1 - lx0) as i64,
        height: (sel.y1 - sel.y0) as i64,
    }));
    assert(fragment_of(m2, 1, 0, cap2, y0, y1) == (Fragment {
        monitor_index: 1,
        x: 0,
        y: (sel.y0 - m2.y) as i64,
        width: cap2 as i64,
        height: (sel.y1 - sel.y0) as i64,
    }));
}

} // verus!
