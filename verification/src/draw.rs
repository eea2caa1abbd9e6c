//! Raster drawing: strokes, circles, rectangle outlines and triangles.
//!
//! Every tool renders into a transparent overlay canvas by stamping filled
//! squares: a freehand stroke stamps a `width * width` square at every
//! integer step along each segment, the midpoint circle stamps single
//! pixels widened radially, and Bresenham lines (used for triangle edges)
//! stamp squares around every visited point. The contracts pin each pixel
//! of the result: it holds the stroke color exactly where some stamped
//! square covers it and is transparent everywhere else.

use vstd::prelude::*;
use crate::canvas::{lemma_pixel_index, Canvas, Rgba, MAX_DIM};
use crate::geometry::{coord_ok, Point, COORD_LIMIT};

verus! {

/// Whether `r` is the square root of `n`, rounded down.
pub open spec fn is_sqrt(r: int, n: int) -> bool {
    0 <= r && r * r <= n < (r + 1) * (r + 1)
}

/// The non-negative square root, rounded down.
pub open spec fn sqrt_nat(n: int) -> int {
    choose|r: int| is_sqrt(r, n)
}

/// Rounded-down square roots are unique.
proof fn lemma_sqrt_unique(n: int, r1: int, r2: int)
    requires
        0 <= r1,
        r1 * r1 <= n < (r1 + 1) * (r1 + 1),
        0 <= r2,
        r2 * r2 <= n < (r2 + 1) * (r2 + 1),
    ensures
        r1 == r2,
{
    assert(r1 == r2) by (nonlinear_arith)
        requires
            0 <= r1,
            r1 * r1 <= n < (r1 + 1) * (r1 + 1),
            0 <= r2,
            r2 * r2 <= n < (r2 + 1) * (r2 + 1),
    ;
}

/// The rounded-down square root, by binary search.
pub fn isqrt64(n: u64) -> (r: u64)
    ensures
        r * r <= n < (r + 1) * (r + 1),
        r == sqrt_nat(n as int),
        r <= 0xFFFF_FFFF,
{
    let mut lo: u64 = 0;
    let mut hi: u64 = 0x1_0000_0000;
    proof {
        assert((0x1_0000_0000 as int) * (0x1_0000_0000 as int) > u64::MAX) by (nonlinear_arith);
    }
    while lo + 1 < hi
        invariant
            0 <= lo < hi <= 0x1_0000_0000,
            (lo as int) * (lo as int) <= n as int,
            (n as int) < (hi as int) * (hi as int),
        decreases hi - lo,
    {
        let mid = lo + (hi - lo) / 2;
        proof {
            assert((mid as int) * (mid as int) <= u64::MAX) by (nonlinear_arith)
                requires
                    0 <= mid < 0x1_0000_0000,
            ;
        }
        if mid * mid <= n {
            lo = mid;
        } else {
            hi = mid;
        }
    }
    proof {
        assert(is_sqrt(lo as int, n as int));
        let w = choose|r: int| is_sqrt(r, n as int);
        lemma_sqrt_unique(n as int, lo as int, w);
    }
    lo
}

/// Whether some stamped `w * w` square whose top-left corner is listed in
/// `positions` covers the pixel `(px, py)`.
pub open spec fn covered(positions: Seq<(i64, i64)>, w: int, px: int, py: int) -> bool {
    exists|k: int|
        0 <= k < positions.len() && (#[trigger] positions[k]).0 <= px < positions[k].0 + w
            && positions[k].1 <= py < positions[k].1 + w
}

/// Appending one square to the stamp list covers exactly the pixels covered
/// before plus those of the new square.
pub proof fn lemma_covered_push(positions: Seq<(i64, i64)>, p: (i64, i64), w: int, px: int, py: int)
    ensures
        covered(positions.push(p), w, px, py) <==> (covered(positions, w, px, py) || (p.0 <= px < p.0
            + w && p.1 <= py < p.1 + w)),
{
    let s2 = positions.push(p);
    if covered(s2, w, px, py) {
        let k = choose|k: int|
            0 <= k < s2.len() && (#[trigger] s2[k]).0 <= px < s2[k].0 + w && s2[k].1 <= py < s2[k].1
                + w;
        if k < positions.len() {
            assert(s2[k] == positions[k]);
            assert(covered(positions, w, px, py));
        } else {
            assert(s2[k] == p);
        }
    }
    if covered(positions, w, px, py) {
        let k = choose|k: int|
            0 <= k < positions.len() && (#[trigger] positions[k]).0 <= px < positions[k].0 + w
                && positions[k].1 <= py < positions[k].1 + w;
        assert(s2[k] == positions[k]);
        assert(covered(s2, w, px, py));
    }
    if p.0 <= px < p.0 + w && p.1 <= py < p.1 + w {
        assert(s2[positions.len() as int] == p);
        assert(covered(s2, w, px, py));
    }
}

/// Concatenating two stamp lists covers exactly the union of their covers.
pub proof fn lemma_covered_concat(
    s1: Seq<(i64, i64)>,
    s2: Seq<(i64, i64)>,
    w: int,
    px: int,
    py: int,
)
    ensures
        covered(s1 + s2, w, px, py) <==> (covered(s1, w, px, py) || covered(s2, w, px, py)),
{
    let s = s1 + s2;
    if covered(s, w, px, py) {
        let k = choose|k: int|
            0 <= k < s.len() && (#[trigger] s[k]).0 <= px < s[k].0 + w && s[k].1 <= py < s[k].1 + w;
        if k < s1.len() {
            assert(s[k] == s1[k]);
            assert(covered(s1, w, px, py));
        } else {
            assert(s[k] == s2[k - s1.len()]);
            assert(covered(s2, w, px, py));
        }
    }
    if covered(s1, w, px, py) {
        let k = choose|k: int|
            0 <= k < s1.len() && (#[trigger] s1[k]).0 <= px < s1[k].0 + w && s1[k].1 <= py < s1[k].1
                + w;
        assert(s[k] == s1[k]);
        assert(covered(s, w, px, py));
    }
    if covered(s2, w, px, py) {
        let k = choose|k: int|
            0 <= k < s2.len() && (#[trigger] s2[k]).0 <= px < s2[k].0 + w && s2[k].1 <= py < s2[k].1
                + w;
        assert(s[s1.len() + k] == s2[k]);
        assert(covered(s, w, px, py));
    }
}

/// Distinct pixel positions occupy distinct buffer cells.
proof fn lemma_pixel_distinct(w: int, x1: int, y1: int, x2: int, y2: int)
    requires
        0 <= x1 < w,
        0 <= x2 < w,
        !(x1 == x2 && y1 == y2),
    ensures
        y1 * w + x1 != y2 * w + x2,
{
    if y1 * w + x1 == y2 * w + x2 {
        vstd::arithmetic::div_mod::lemma_fundamental_div_mod_converse(y1 * w + x1, w, y1, x1);
        vstd::arithmetic::div_mod::lemma_fundamental_div_mod_converse(y2 * w + x2, w, y2, x2);
    }
}

/// Paints every canvas pixel inside the rectangle of size `rw * rh` whose
/// top-left corner is `(cx, cy)` — which may lie partly or wholly outside
/// the canvas — with `color`, leaving every other pixel as it was.
pub fn stamp_rect(canvas: &mut Canvas, cx: i64, cy: i64, rw: i64, rh: i64, color: Rgba)
    requires
        old(canvas).wf(),
        -32 * (COORD_LIMIT as int) <= cx <= 32 * (COORD_LIMIT as int),
        -32 * (COORD_LIMIT as int) <= cy <= 32 * (COORD_LIMIT as int),
        0 <= rw <= 32 * (COORD_LIMIT as int),
        0 <= rh <= 32 * (COORD_LIMIT as int),
    ensures
        final(canvas).wf(),
        final(canvas).width == old(canvas).width,
        final(canvas).height == old(canvas).height,
        forall|x: int, y: int|
            0 <= x < old(canvas).width && 0 <= y < old(canvas).height
                ==> #[trigger] final(canvas).pix(x, y) == (if cx <= x < cx + rw && cy <= y < cy
                + rh {
                color
            } else {
                old(canvas).pix(x, y)
            }),
{
    let ghost orig = *old(canvas);
    let cw = canvas.width;
    let ch = canvas.height;
    let x_start: u32 = if cx < 0 {
        0
    } else if cx > cw as i64 {
        cw
    } else {
        cx as u32
    };
    let x_end_i: i64 = cx + rw;
    let x_end: u32 = if x_end_i < 0 {
        0
    } else if x_end_i > cw as i64 {
        cw
    } else {
        x_end_i as u32
    };
    let y_start: u32 = if cy < 0 {
        0
    } else if cy > ch as i64 {
        ch
    } else {
        cy as u32
    };
    let y_end_i: i64 = cy + rh;
    let y_end: u32 = if y_end_i < 0 {
        0
    } else if y_end_i > ch as i64 {
        ch
    } else {
        y_end_i as u32
    };
    let mut xx: u32 = x_start;
    while xx < x_end
        invariant
            x_start <= xx <= x_end || xx == x_start,
            x_end <= cw,
            y_end <= ch,
            canvas.wf(),
            canvas.width == cw,
            canvas.height == ch,
            orig.width == cw,
            orig.height == ch,
            x_start as int == if cx < 0 {
                0
            } else if cx > cw as int {
                cw as int
            } else {
                cx as int
            },
            x_end as int == if cx + rw < 0 {
                0
            } else if cx + rw > cw as int {
                cw as int
            } else {
                cx + rw
            },
            y_start as int == if cy < 0 {
                0
            } else if cy > ch as int {
                ch as int
            } else {
                cy as int
            },
            y_end as int == if cy + rh < 0 {
                0
            } else if cy + rh > ch as int {
                ch as int
            } else {
                cy + rh
            },
            forall|x: int, y: int|
                0 <= x < cw && 0 <= y < ch ==> #[trigger] canvas.pix(x, y) == (if cx <= x < cx + rw
                    && cy <= y < cy + rh && x < xx {
                    color
                } else {
                    orig.pix(x, y)
                }),
        decreases x_end - xx,
    {
        let mut yy: u32 = y_start;
        while yy < y_end
            invariant
                y_start <= yy <= y_end || yy == y_start,
                x_start <= xx < x_end,
                x_end <= cw,
                y_end <= ch,
                canvas.wf(),
                canvas.width == cw,
                canvas.height == ch,
                orig.width == cw,
                orig.height == ch,
                x_start as int == if cx < 0 {
                    0
                } else if cx > cw as int {
                    cw as int
                } else {
                    cx as int
                },
                x_end as int == if cx + rw < 0 {
                    0
                } else if cx + rw > cw as int {
                    cw as int
                } else {
                    cx + rw
                },
                y_start as int == if cy < 0 {
                    0
                } else if cy > ch as int {
                    ch as int
                } else {
                    cy as int
                },
                y_end as int == if cy + rh < 0 {
                    0
                } else if cy + rh > ch as int {
                    ch as int
                } else {
                    cy + rh
                },
                forall|x: int, y: int|
                    0 <= x < cw && 0 <= y < ch ==> #[trigger] canvas.pix(x, y) == (if (cx <= x < cx
                        + rw && cy <= y < cy + rh && x < xx) || (x == xx && cy <= y < cy + rh && y
                        < yy) {
                        color
                    } else {
                        orig.pix(x, y)
                    }),
            decreases y_end - yy,
        {
            let ghost prev = *canvas;
            canvas.put_pixel(xx, yy, color);
            proof {
                assert forall|x: int, y: int| 0 <= x < cw && 0 <= y < ch implies #[trigger]
                canvas.pix(x, y) == (if x == xx && y == yy {
                    color
                } else {
                    prev.pix(x, y)
                }) by {
                    let idx = (yy as int) * (cw as int) + (xx as int);
                    let t = y * (cw as int) + x;
                    assert(canvas.pixels@ == prev.pixels@.update(idx, color));
                    lemma_pixel_index(cw as int, ch as int, x, y);
                    lemma_pixel_index(cw as int, ch as int, xx as int, yy as int);
                    assert(0 <= t < canvas.pixels@.len());
                    assert(0 <= idx < prev.pixels@.len());
                    if x == xx as int && y == yy as int {
                        assert(canvas.pixels@[t] == color);
                    } else {
                        lemma_pixel_distinct(cw as int, x, y, xx as int, yy as int);
                        assert(t != idx);
                        assert(canvas.pixels@[t] == prev.pixels@[t]);
                    }
                }
            }
            yy = yy + 1;
        }
        xx = xx + 1;
    }
}


/// Stamps a `w * w` square of `color` at every listed position, clipped to
/// the canvas; a pixel changes exactly when some square covers it.
pub fn stamp_squares(canvas: &mut Canvas, positions: &Vec<(i64, i64)>, w: u32, color: Rgba)
    requires
        old(canvas).wf(),
        1 <= w <= COORD_LIMIT,
        forall|k: int|
            0 <= k < positions@.len() ==> -31 * (COORD_LIMIT as int) <= (
            #[trigger] positions@[k]).0 <= 31 * (COORD_LIMIT as int) && -31 * (COORD_LIMIT as int)
                <= positions@[k].1 <= 31 * (COORD_LIMIT as int),
    ensures
        final(canvas).wf(),
        final(canvas).width == old(canvas).width,
        final(canvas).height == old(canvas).height,
        forall|x: int, y: int|
            0 <= x < old(canvas).width && 0 <= y < old(canvas).height
                ==> #[trigger] final(canvas).pix(x, y) == (if covered(
                positions@,
                w as int,
                x,
                y,
            ) {
                color
            } else {
                old(canvas).pix(x, y)
            }),
{
    let ghost orig = *old(canvas);
    let cw = canvas.width;
    let ch = canvas.height;
    let mut k: usize = 0;
    while k < positions.len()
        invariant
            k <= positions@.len(),
            canvas.wf(),
            canvas.width == cw,
            canvas.height == ch,
            orig.width == cw,
            orig.height == ch,
            1 <= w <= COORD_LIMIT,
            forall|j: int|
                0 <= j < positions@.len() ==> -31 * (COORD_LIMIT as int) <= (
                #[trigger] positions@[j]).0 <= 31 * (COORD_LIMIT as int) && -31 * (
                COORD_LIMIT as int) <= positions@[j].1 <= 31 * (COORD_LIMIT as int),
            forall|x: int, y: int|
                0 <= x < cw && 0 <= y < ch ==> #[trigger] canvas.pix(x, y) == (if covered(
                    positions@.take(k as int),
                    w as int,
                    x,
                    y,
                ) {
                    color
                } else {
                    orig.pix(x, y)
                }),
        decreases positions@.len() - k,
    {
        let ghost before = *canvas;
        let p = positions[k];
        stamp_rect(canvas, p.0, p.1, w as i64, w as i64, color);
        proof {
            assert(positions@.take(k + 1) =~= positions@.take(k as int).push(
                positions@[k as int],
            ));
            assert forall|x: int, y: int| 0 <= x < cw && 0 <= y < ch implies #[trigger] canvas.pix(
                x,
                y,
            ) == (if covered(positions@.take(k + 1), w as int, x, y) {
                color
            } else {
                orig.pix(x, y)
            }) by {
                lemma_covered_push(
                    positions@.take(k as int),
                    positions@[k as int],
                    w as int,
                    x,
                    y,
                );
            }
        }
        k = k + 1;
    }
    proof {
        assert(positions@.take(positions@.len() as int) =~= positions@);
    }
}

/// The sign of an offset: which way a segment step moves.
pub open spec fn sgn(v: int) -> int {
    if v > 0 {
        1
    } else if v < 0 {
        -1
    } else {
        0
    }
}

/// An offset's magnitude.
pub open spec fn abs_i(v: int) -> int {
    if v >= 0 {
        v
    } else {
        -v
    }
}

/// The length of the segment from `p1` to `p2`, rounded down.
pub open spec fn seg_len(p1: Point, p2: Point) -> int {
    sqrt_nat((p2.x - p1.x) * (p2.x - p1.x) + (p2.y - p1.y) * (p2.y - p1.y))
}

/// The stamp position after `t` of `len` integer steps from `p1` towards
/// `p2`: each coordinate advances by its share of the offset, rounded
/// towards `p1`.
pub open spec fn seg_point(p1: Point, p2: Point, t: int, len: int) -> (i64, i64) {
    if len <= 0 {
        (p1.x, p1.y)
    } else {
        (
            (p1.x + sgn(p2.x - p1.x) * ((abs_i(p2.x - p1.x) * t) / len)) as i64,
            (p1.y + sgn(p2.y - p1.y) * ((abs_i(p2.y - p1.y) * t) / len)) as i64,
        )
    }
}

/// The stamp positions of one segment: one per integer step, both
/// endpoints included.
pub open spec fn seg_positions(p1: Point, p2: Point) -> Seq<(i64, i64)> {
    Seq::new((seg_len(p1, p2) + 1) as nat, |t: int| seg_point(p1, p2, t, seg_len(p1, p2)))
}

/// The stamp positions of a whole stroke: every segment between
/// consecutive points, in order. A stroke of fewer than two points stamps
/// nothing.
pub open spec fn stroke_positions(points: Seq<Point>) -> Seq<(i64, i64)>
    decreases points.len(),
{
    if points.len() < 2 {
        Seq::<(i64, i64)>::empty()
    } else {
        seg_positions(points[0], points[1]) + stroke_positions(points.drop_first())
    }
}

/// Every integer step of a segment stamps a full square: each pixel of
/// the `w * w` block anchored at the step position is covered by the
/// segment's stamp list.
pub proof fn lemma_segment_step_covered(p1: Point, p2: Point, w: int, t: int, a: int, b: int)
    requires
        0 <= t <= seg_len(p1, p2),
        1 <= w,
        0 <= a < w,
        0 <= b < w,
    ensures
        covered(
            seg_positions(p1, p2),
            w,
            seg_point(p1, p2, t, seg_len(p1, p2)).0 + a,
            seg_point(p1, p2, t, seg_len(p1, p2)).1 + b,
        ),
{
    let s = seg_positions(p1, p2);
    let pos = seg_point(p1, p2, t, seg_len(p1, p2));
    assert(s.len() == seg_len(p1, p2) + 1);
    assert(s[t] == pos);
    assert(s[t].0 <= pos.0 + a < s[t].0 + w && s[t].1 <= pos.1 + b < s[t].1 + w);
    assert(covered(s, w, pos.0 + a, pos.1 + b));
}

/// Whatever one segment's stamps cover, the whole stroke's stamps cover.
pub proof fn lemma_stroke_covers_segment(points: Seq<Point>, i: int, w: int, px: int, py: int)
    requires
        0 <= i,
        i + 1 < points.len(),
        covered(seg_positions(points[i], points[i + 1]), w, px, py),
    ensures
        covered(stroke_positions(points), w, px, py),
    decreases i,
{
    if i == 0 {
        lemma_covered_concat(
            seg_positions(points[0], points[1]),
            stroke_positions(points.drop_first()),
            w,
            px,
            py,
        );
    } else {
        assert(points.drop_first()[i - 1] == points[i]);
        assert(points.drop_first()[i] == points[i + 1]);
        lemma_stroke_covers_segment(points.drop_first(), i - 1, w, px, py);
        lemma_covered_concat(
            seg_positions(points[0], points[1]),
            stroke_positions(points.drop_first()),
            w,
            px,
            py,
        );
    }
}

/// A freehand stroke paints an unbroken band of its full width along its
/// whole path: at every integer step of every segment, the `width * width`
/// square anchored at the step position lies in the stroke's covered set,
/// and `Stroke::draw` gives exactly the covered set the stroke color.
pub proof fn lemma_stroke_band(points: Seq<Point>, width: int, i: int, t: int, a: int, b: int)
    requires
        0 <= i,
        i + 1 < points.len(),
        0 <= t <= seg_len(points[i], points[i + 1]),
        1 <= width,
        0 <= a < width,
        0 <= b < width,
    ensures
        covered(
            stroke_positions(points),
            width,
            seg_point(points[i], points[i + 1], t, seg_len(points[i], points[i + 1])).0 + a,
            seg_point(points[i], points[i + 1], t, seg_len(points[i], points[i + 1])).1 + b,
        ),
{
    let pos = seg_point(points[i], points[i + 1], t, seg_len(points[i], points[i + 1]));
    lemma_segment_step_covered(points[i], points[i + 1], width, t, a, b);
    lemma_stroke_covers_segment(points, i, width, pos.0 + a, pos.1 + b);
}

/// A share of the offset never exceeds the offset.
proof fn lemma_step_bound(a: int, t: int, len: int)
    requires
        0 <= a,
        0 <= t <= len,
        1 <= len,
    ensures
        0 <= (a * t) / len <= a,
{
    assert(a * t <= a * len) by (nonlinear_arith)
        requires
            0 <= a,
            t <= len,
    ;
    assert(0 <= a * t) by (nonlinear_arith)
        requires
            0 <= a,
            0 <= t,
    ;
    vstd::arithmetic::div_mod::lemma_div_is_ordered(0, a * t, len);
    vstd::arithmetic::div_mod::lemma_div_is_ordered(a * t, a * len, len);
    vstd::arithmetic::div_mod::lemma_div_by_multiple(a, len);
    assert(0int / len == 0) by (nonlinear_arith)
        requires
            1 <= len,
    ;
}

/// Computes the stamp positions of one segment.
fn segment_positions_exec(p1: Point, p2: Point) -> (r: Vec<(i64, i64)>)
    requires
        p1.wf(),
        p2.wf(),
    ensures
        r@ == seg_positions(p1, p2),
        r@.len() >= 1,
        forall|k: int|
            0 <= k < r@.len() ==> -(COORD_LIMIT as int) <= (#[trigger] r@[k]).0 <= (
            COORD_LIMIT as int) && -(COORD_LIMIT as int) <= r@[k].1 <= (COORD_LIMIT as int),
{
    let dx = p2.x - p1.x;
    let dy = p2.y - p1.y;
    let adx: i64 = if dx < 0 {
        -dx
    } else {
        dx
    };
    let ady: i64 = if dy < 0 {
        -dy
    } else {
        dy
    };
    let sx: i64 = if dx > 0 {
        1
    } else if dx < 0 {
        -1
    } else {
        0
    };
    let sy: i64 = if dy > 0 {
        1
    } else if dy < 0 {
        -1
    } else {
        0
    };
    proof {
        assert((adx as int) * (adx as int) + (ady as int) * (ady as int) <= 0x8000_0000_0000_0000)
            by (nonlinear_arith)
            requires
                0 <= adx <= 2 * (COORD_LIMIT as int),
                0 <= ady <= 2 * (COORD_LIMIT as int),
        ;
    }
    let n: u64 = (adx as u64) * (adx as u64) + (ady as u64) * (ady as u64);
    let len: u64 = isqrt64(n);
    let ghost slen = seg_len(p1, p2);
    proof {
        assert((adx as int) * (adx as int) == (p2.x - p1.x) * (p2.x - p1.x)) by (nonlinear_arith)
            requires
                adx as int == abs_i(p2.x - p1.x),
        ;
        assert((ady as int) * (ady as int) == (p2.y - p1.y) * (p2.y - p1.y)) by (nonlinear_arith)
            requires
                ady as int == abs_i(p2.y - p1.y),
        ;
        assert(slen == len as int);
    }
    let mut out: Vec<(i64, i64)> = Vec::new();
    if len == 0 {
        out.push((p1.x, p1.y));
        proof {
            assert(out@ =~= seg_positions(p1, p2));
        }
        return out;
    }
    let mut t: u64 = 0;
    while t <= len
        invariant
            0 <= t <= len + 1,
            1 <= len <= 0xFFFF_FFFF,
            slen == len as int,
            slen == seg_len(p1, p2),
            p1.wf(),
            p2.wf(),
            adx == abs_i(p2.x - p1.x),
            ady == abs_i(p2.y - p1.y),
            sx == sgn(p2.x - p1.x),
            sy == sgn(p2.y - p1.y),
            0 <= adx <= 2 * (COORD_LIMIT as int),
            0 <= ady <= 2 * (COORD_LIMIT as int),
            out@.len() == t,
            forall|j: int| 0 <= j < t ==> #[trigger] out@[j] == seg_point(p1, p2, j, slen),
            forall|j: int|
                0 <= j < t ==> -(COORD_LIMIT as int) <= (#[trigger] out@[j]).0 <= (
                COORD_LIMIT as int) && -(COORD_LIMIT as int) <= out@[j].1 <= (COORD_LIMIT as int),
        decreases len + 1 - t,
    {
        proof {
            lemma_step_bound(adx as int, t as int, len as int);
            lemma_step_bound(ady as int, t as int, len as int);
            assert((adx as int) * (t as int) <= 0x8000_0000_0000_0000) by (nonlinear_arith)
                requires
                    0 <= adx <= 2 * (COORD_LIMIT as int),
                    0 <= t <= 0x1_0000_0000,
            ;
            assert((ady as int) * (t as int) <= 0x8000_0000_0000_0000) by (nonlinear_arith)
                requires
                    0 <= ady <= 2 * (COORD_LIMIT as int),
                    0 <= t <= 0x1_0000_0000,
            ;
        }
        let qx: u64 = (adx as u64) * t / len;
        let qy: u64 = (ady as u64) * t / len;
        let px: i64 = if sx > 0 {
            p1.x + qx as i64
        } else if sx < 0 {
            p1.x - qx as i64
        } else {
            p1.x
        };
        let py: i64 = if sy > 0 {
            p1.y + qy as i64
        } else if sy < 0 {
            p1.y - qy as i64
        } else {
            p1.y
        };
        out.push((px, py));
        proof {
            assert(seg_point(p1, p2, t as int, slen).0 == px);
            assert(seg_point(p1, p2, t as int, slen).1 == py);
            assert(out@[t as int] == seg_point(p1, p2, t as int, slen));
            assert(-(COORD_LIMIT as int) <= px <= (COORD_LIMIT as int));
            assert(-(COORD_LIMIT as int) <= py <= (COORD_LIMIT as int));
        }
        t = t + 1;
    }
    proof {
        assert(out@ =~= seg_positions(p1, p2));
    }
    out
}


/// Computes the stamp positions of a whole stroke.
fn stroke_positions_exec(points: &Vec<Point>) -> (r: Vec<(i64, i64)>)
    requires
        forall|i: int| 0 <= i < points@.len() ==> (#[trigger] points@[i]).wf(),
    ensures
        r@ == stroke_positions(points@),
        forall|k: int|
            0 <= k < r@.len() ==> -(COORD_LIMIT as int) <= (#[trigger] r@[k]).0 <= (
            COORD_LIMIT as int) && -(COORD_LIMIT as int) <= r@[k].1 <= (COORD_LIMIT as int),
{
    let mut out: Vec<(i64, i64)> = Vec::new();
    if points.len() < 2 {
        proof {
            assert(out@ =~= stroke_positions(points@));
        }
        return out;
    }
    let mut i: usize = 0;
    proof {
        assert(points@.skip(0) =~= points@);
        assert(out@ + stroke_positions(points@) =~= stroke_positions(points@));
    }
    while i + 1 < points.len()
        invariant
            i < points@.len(),
            i < usize::MAX,
            points@.len() >= 2,
            forall|j: int| 0 <= j < points@.len() ==> (#[trigger] points@[j]).wf(),
            stroke_positions(points@) == out@ + stroke_positions(points@.skip(i as int)),
            forall|k: int|
                0 <= k < out@.len() ==> -(COORD_LIMIT as int) <= (#[trigger] out@[k]).0 <= (
                COORD_LIMIT as int) && -(COORD_LIMIT as int) <= out@[k].1 <= (COORD_LIMIT as int),
        decreases points@.len() - i,
    {
        let seg = segment_positions_exec(points[i], points[i + 1]);
        let ghost rest = points@.skip(i as int);
        proof {
            assert(rest[0] == points@[i as int]);
            assert(rest[1] == points@[i + 1]);
            assert(rest.drop_first() =~= points@.skip(i + 1));
            assert(stroke_positions(rest) == seg_positions(points@[i as int], points@[i + 1])
                + stroke_positions(points@.skip(i + 1)));
        }
        let ghost base = out@;
        let mut j: usize = 0;
        while j < seg.len()
            invariant
                j <= seg@.len(),
                out@ == base + seg@.take(j as int),
                forall|k: int|
                    0 <= k < seg@.len() ==> -(COORD_LIMIT as int) <= (#[trigger] seg@[k]).0 <= (
                    COORD_LIMIT as int) && -(COORD_LIMIT as int) <= seg@[k].1 <= (
                    COORD_LIMIT as int),
                forall|k: int|
                    0 <= k < base.len() ==> -(COORD_LIMIT as int) <= (#[trigger] base[k]).0 <= (
                    COORD_LIMIT as int) && -(COORD_LIMIT as int) <= base[k].1 <= (
                    COORD_LIMIT as int),
            decreases seg@.len() - j,
        {
            out.push(seg[j]);
            proof {
                assert(out@ =~= base + seg@.take(j + 1));
            }
            j = j + 1;
        }
        proof {
            assert(seg@.take(seg@.len() as int) =~= seg@);
            assert(base + seg@ + stroke_positions(points@.skip(i + 1)) =~= base
                + stroke_positions(rest));
        }
        i = i + 1;
    }
    proof {
        assert(points@.skip(i as int).len() < 2);
        assert(stroke_positions(points@.skip(i as int)) =~= Seq::<(i64, i64)>::empty());
        assert(out@ + Seq::<(i64, i64)>::empty() =~= out@);
    }
    out
}

/// One Bresenham step: advance towards the target on either or both axes,
/// updating the error term.
pub open spec fn bres_step(x0: int, y0: int, err: int, dx: int, dy: int, sx: int, sy: int) -> (
    int,
    int,
    int,
) {
    let e2 = 2 * err;
    let x0b = if e2 >= dy {
        x0 + sx
    } else {
        x0
    };
    let errb = if e2 >= dy {
        err + dy
    } else {
        err
    };
    let y0b = if e2 <= dx {
        y0 + sy
    } else {
        y0
    };
    let errc = if e2 <= dx {
        errb + dx
    } else {
        errb
    };
    (x0b, y0b, errc)
}

/// The points Bresenham's line algorithm visits from `(x0, y0)` towards
/// `(x1, y1)`, the target included; `fuel` bounds the walk.
pub open spec fn bres_positions(
    x0: int,
    y0: int,
    x1: int,
    y1: int,
    dx: int,
    dy: int,
    sx: int,
    sy: int,
    err: int,
    fuel: nat,
) -> Seq<(i64, i64)>
    decreases fuel,
{
    if fuel == 0 {
        Seq::<(i64, i64)>::empty()
    } else {
        let cur = seq![(x0 as i64, y0 as i64)];
        if x0 == x1 && y0 == y1 {
            cur
        } else {
            let st = bres_step(x0, y0, err, dx, dy, sx, sy);
            cur + bres_positions(st.0, st.1, x1, y1, dx, dy, sx, sy, st.2, (fuel - 1) as nat)
        }
    }
}

/// The Bresenham points of the line from `start` to `end`.
pub open spec fn line_positions(start: Point, end: Point) -> Seq<(i64, i64)> {
    let dx = abs_i(end.x - start.x);
    let dy = -abs_i(end.y - start.y);
    let sx: int = if start.x < end.x {
        1
    } else {
        -1
    };
    let sy: int = if start.y < end.y {
        1
    } else {
        -1
    };
    bres_positions(
        start.x as int,
        start.y as int,
        end.x as int,
        end.y as int,
        dx,
        dy,
        sx,
        sy,
        dx + dy,
        (dx - dy + 1) as nat,
    )
}

/// Every position moved up and left by `d`: where a thickened line's
/// squares are anchored.
pub open spec fn shift_positions(s: Seq<(i64, i64)>, d: int) -> Seq<(i64, i64)> {
    Seq::new(s.len(), |i: int| ((s[i].0 - d) as i64, (s[i].1 - d) as i64))
}

/// The stamp anchors of a line of the given stroke width.
pub open spec fn line_stamps(start: Point, end: Point, w: int) -> Seq<(i64, i64)> {
    shift_positions(line_positions(start, end), w - 1)
}

/// Computes the Bresenham points of a line.
fn line_positions_exec(start: Point, end: Point) -> (r: Vec<(i64, i64)>)
    requires
        -4 * (COORD_LIMIT as int) <= start.x <= 4 * (COORD_LIMIT as int),
        -4 * (COORD_LIMIT as int) <= start.y <= 4 * (COORD_LIMIT as int),
        -4 * (COORD_LIMIT as int) <= end.x <= 4 * (COORD_LIMIT as int),
        -4 * (COORD_LIMIT as int) <= end.y <= 4 * (COORD_LIMIT as int),
    ensures
        r@ == line_positions(start, end),
        forall|k: int|
            0 <= k < r@.len() ==> -30 * (COORD_LIMIT as int) <= (#[trigger] r@[k]).0 <= 30 * (
            COORD_LIMIT as int) && -30 * (COORD_LIMIT as int) <= r@[k].1 <= 30 * (
            COORD_LIMIT as int),
{
    let dx: i64 = if end.x >= start.x {
        end.x - start.x
    } else {
        start.x - end.x
    };
    let dy: i64 = if end.y >= start.y {
        -(end.y - start.y)
    } else {
        -(start.y - end.y)
    };
    let sx: i64 = if start.x < end.x {
        1
    } else {
        -1
    };
    let sy: i64 = if start.y < end.y {
        1
    } else {
        -1
    };
    let mut x0: i64 = start.x;
    let mut y0: i64 = start.y;
    let mut err: i64 = dx + dy;
    let mut fuel: i64 = dx - dy + 1;
    let ghost fuel0: int = fuel as int;
    let mut out: Vec<(i64, i64)> = Vec::new();
    while fuel > 0 && !(x0 == end.x && y0 == end.y)
        invariant
            0 <= fuel <= fuel0,
            fuel0 == dx - dy + 1,
            0 <= dx <= 8 * (COORD_LIMIT as int),
            -8 * (COORD_LIMIT as int) <= dy <= 0,
            dx == abs_i(end.x - start.x),
            dy == -abs_i(end.y - start.y),
            sx == if start.x < end.x {
                1int
            } else {
                -1int
            },
            sy == if start.y < end.y {
                1int
            } else {
                -1int
            },
            start.x - (fuel0 - fuel) <= x0 <= start.x + (fuel0 - fuel),
            start.y - (fuel0 - fuel) <= y0 <= start.y + (fuel0 - fuel),
            -4 * (COORD_LIMIT as int) <= start.x <= 4 * (COORD_LIMIT as int),
            -4 * (COORD_LIMIT as int) <= start.y <= 4 * (COORD_LIMIT as int),
            -4 * (COORD_LIMIT as int) <= end.x <= 4 * (COORD_LIMIT as int),
            -4 * (COORD_LIMIT as int) <= end.y <= 4 * (COORD_LIMIT as int),
            2 * dy <= err <= 2 * dx,
            line_positions(start, end) == out@ + bres_positions(
                x0 as int,
                y0 as int,
                end.x as int,
                end.y as int,
                dx as int,
                dy as int,
                sx as int,
                sy as int,
                err as int,
                fuel as nat,
            ),
            forall|k: int|
                0 <= k < out@.len() ==> -30 * (COORD_LIMIT as int) <= (#[trigger] out@[k]).0 <= 30
                    * (COORD_LIMIT as int) && -30 * (COORD_LIMIT as int) <= out@[k].1 <= 30 * (
                COORD_LIMIT as int),
        decreases fuel,
    {
        let ghost pre = bres_positions(
            x0 as int,
            y0 as int,
            end.x as int,
            end.y as int,
            dx as int,
            dy as int,
            sx as int,
            sy as int,
            err as int,
            fuel as nat,
        );
        out.push((x0, y0));
        let e2: i64 = 2 * err;
        let ghost st = bres_step(
            x0 as int,
            y0 as int,
            err as int,
            dx as int,
            dy as int,
            sx as int,
            sy as int,
        );
        proof {
            assert(pre == seq![(x0, y0)] + bres_positions(
                st.0,
                st.1,
                end.x as int,
                end.y as int,
                dx as int,
                dy as int,
                sx as int,
                sy as int,
                st.2,
                (fuel - 1) as nat,
            ));
            assert(out@ + bres_positions(
                st.0,
                st.1,
                end.x as int,
                end.y as int,
                dx as int,
                dy as int,
                sx as int,
                sy as int,
                st.2,
                (fuel - 1) as nat,
            ) =~= out@.drop_last() + pre);
        }
        if e2 >= dy {
            err = err + dy;
            x0 = x0 + sx;
        }
        if e2 <= dx {
            err = err + dx;
            y0 = y0 + sy;
        }
        fuel = fuel - 1;
    }
    if fuel > 0 {
        let ghost pre = bres_positions(
            x0 as int,
            y0 as int,
            end.x as int,
            end.y as int,
            dx as int,
            dy as int,
            sx as int,
            sy as int,
            err as int,
            fuel as nat,
        );
        proof {
            assert(pre =~= seq![(x0, y0)]);
            assert(out@ + seq![(x0, y0)] =~= out@.push((x0, y0)));
        }
        out.push((x0, y0));
    } else {
        proof {
            assert(bres_positions(
                x0 as int,
                y0 as int,
                end.x as int,
                end.y as int,
                dx as int,
                dy as int,
                sx as int,
                sy as int,
                err as int,
                fuel as nat,
            ) =~= Seq::<(i64, i64)>::empty());
            assert(out@ + Seq::<(i64, i64)>::empty() =~= out@);
        }
    }
    out
}

/// Shifts every position up and left by `d`.
fn shift_positions_exec(src: &Vec<(i64, i64)>, d: i64) -> (r: Vec<(i64, i64)>)
    requires
        0 <= d <= COORD_LIMIT,
        forall|k: int|
            0 <= k < src@.len() ==> -30 * (COORD_LIMIT as int) <= (#[trigger] src@[k]).0 <= 30 * (
            COORD_LIMIT as int) && -30 * (COORD_LIMIT as int) <= src@[k].1 <= 30 * (
            COORD_LIMIT as int),
    ensures
        r@ == shift_positions(src@, d as int),
        forall|k: int|
            0 <= k < r@.len() ==> -31 * (COORD_LIMIT as int) <= (#[trigger] r@[k]).0 <= 31 * (
            COORD_LIMIT as int) && -31 * (COORD_LIMIT as int) <= r@[k].1 <= 31 * (
            COORD_LIMIT as int),
{
    let mut out: Vec<(i64, i64)> = Vec::new();
    let mut k: usize = 0;
    while k < src.len()
        invariant
            k <= src@.len(),
            0 <= d <= COORD_LIMIT,
            forall|j: int|
                0 <= j < src@.len() ==> -30 * (COORD_LIMIT as int) <= (#[trigger] src@[j]).0 <= 30
                    * (COORD_LIMIT as int) && -30 * (COORD_LIMIT as int) <= src@[j].1 <= 30 * (
                COORD_LIMIT as int),
            out@.len() == k,
            forall|j: int|
                0 <= j < k ==> #[trigger] out@[j] == ((src@[j].0 - d) as i64, (src@[j].1
                    - d) as i64),
        decreases src@.len() - k,
    {
        let p = src[k];
        out.push((p.0 - d, p.1 - d));
        k = k + 1;
    }
    proof {
        assert(out@ =~= shift_positions(src@, d as int));
    }
    out
}


/// The eight symmetric points of one circle octant step, widened `i`
/// pixels radially outward.
pub open spec fn octant_points(cx: int, cy: int, x: int, y: int, i: int) -> Seq<(i64, i64)> {
    seq![
        ((cx + x + i) as i64, (cy + y) as i64),
        ((cx + y) as i64, (cy + x + i) as i64),
        ((cx - y) as i64, (cy + x + i) as i64),
        ((cx - x - i) as i64, (cy + y) as i64),
        ((cx - x - i) as i64, (cy - y) as i64),
        ((cx - y) as i64, (cy - x - i) as i64),
        ((cx + y) as i64, (cy - x - i) as i64),
        ((cx + x + i) as i64, (cy - y) as i64),
    ]
}

/// The widened octant points of one circle step: eight points for each of
/// the `n` radial widening offsets.
pub open spec fn ring_points(cx: int, cy: int, x: int, y: int, n: int) -> Seq<(i64, i64)>
    decreases n,
{
    if n <= 0 {
        Seq::<(i64, i64)>::empty()
    } else {
        ring_points(cx, cy, x, y, n - 1) + octant_points(cx, cy, x, y, n - 1)
    }
}

/// The pixels of a midpoint circle of the given radius around `(cx, cy)`,
/// widened radially by the stroke width: the algorithm starts at
/// `(x, y) = (radius, 0)` with a zero error term and walks one octant,
/// mirroring each step eight ways.
pub open spec fn circle_positions(cx: int, cy: int, x: int, y: int, err: int, width: int) -> Seq<
    (i64, i64),
>
    decreases x + 2 - y,
{
    if y > x || y < 0 {
        Seq::<(i64, i64)>::empty()
    } else {
        let ring = ring_points(cx, cy, x, y, width);
        let y2 = y + 1;
        let e1 = if err <= 0 {
            err + 2 * y2 + 1
        } else {
            err
        };
        let x2 = if e1 > 0 {
            x - 1
        } else {
            x
        };
        let e2 = if e1 > 0 {
            e1 - (2 * x2 + 1)
        } else {
            e1
        };
        ring + circle_positions(cx, cy, x2, y2, e2, width)
    }
}

/// Computes the widened midpoint-circle pixels.
fn circle_positions_exec(cx: i64, cy: i64, radius: i64, width: u32) -> (r: Vec<(i64, i64)>)
    requires
        coord_ok(cx as int),
        coord_ok(cy as int),
        0 <= radius <= 3 * (COORD_LIMIT as int),
        1 <= width <= COORD_LIMIT,
    ensures
        r@ == circle_positions(cx as int, cy as int, radius as int, 0, 0, width as int),
        forall|k: int|
            0 <= k < r@.len() ==> -6 * (COORD_LIMIT as int) <= (#[trigger] r@[k]).0 <= 6 * (
            COORD_LIMIT as int) && -6 * (COORD_LIMIT as int) <= r@[k].1 <= 6 * (COORD_LIMIT as int),
{
    let mut x: i64 = radius;
    let mut y: i64 = 0;
    let mut err: i64 = 0;
    let mut out: Vec<(i64, i64)> = Vec::new();
    proof {
        assert(out@ + circle_positions(cx as int, cy as int, radius as int, 0, 0, width as int)
            =~= circle_positions(cx as int, cy as int, radius as int, 0, 0, width as int));
    }
    while x >= y
        invariant
            0 <= y,
            y <= x + 2,
            -1 <= x <= radius,
            0 <= radius <= 3 * (COORD_LIMIT as int),
            coord_ok(cx as int),
            coord_ok(cy as int),
            1 <= width <= COORD_LIMIT,
            -(2 * radius + 5) <= err,
            err <= 2 * radius + 5 + (if x < 0 {
                2int
            } else {
                0int
            }),
            circle_positions(cx as int, cy as int, radius as int, 0, 0, width as int) == out@
                + circle_positions(cx as int, cy as int, x as int, y as int, err as int,
            width as int),
            forall|k: int|
                0 <= k < out@.len() ==> -6 * (COORD_LIMIT as int) <= (#[trigger] out@[k]).0 <= 6
                    * (COORD_LIMIT as int) && -6 * (COORD_LIMIT as int) <= out@[k].1 <= 6 * (
                COORD_LIMIT as int),
        decreases x + 2 - y,
    {
        let ghost pre = circle_positions(
            cx as int,
            cy as int,
            x as int,
            y as int,
            err as int,
            width as int,
        );
        let ghost base = out@;
        let mut i: u32 = 0;
        while i < width
            invariant
                i <= width,
                1 <= width <= COORD_LIMIT,
                0 <= y <= x,
                0 <= x <= radius,
                0 <= radius <= 3 * (COORD_LIMIT as int),
                coord_ok(cx as int),
                coord_ok(cy as int),
                out@ == base + ring_points(cx as int, cy as int, x as int, y as int, i as int),
                forall|k: int|
                    0 <= k < out@.len() ==> -6 * (COORD_LIMIT as int) <= (#[trigger] out@[k]).0
                        <= 6 * (COORD_LIMIT as int) && -6 * (COORD_LIMIT as int) <= out@[k].1 <= 6
                        * (COORD_LIMIT as int),
            decreases width - i,
        {
            let ghost before = out@;
            let off: i64 = x + i as i64;
            out.push((cx + off, cy + y));
            out.push((cx + y, cy + off));
            out.push((cx - y, cy + off));
            out.push((cx - off, cy + y));
            out.push((cx - off, cy - y));
            out.push((cx - y, cy - off));
            out.push((cx + y, cy - off));
            out.push((cx + off, cy - y));
            proof {
                assert(out@ =~= before + octant_points(
                    cx as int,
                    cy as int,
                    x as int,
                    y as int,
                    i as int,
                ));
                assert(ring_points(cx as int, cy as int, x as int, y as int, i + 1) == ring_points(
                    cx as int,
                    cy as int,
                    x as int,
                    y as int,
                    i as int,
                ) + octant_points(cx as int, cy as int, x as int, y as int, i as int));
                assert(out@ =~= base + ring_points(
                    cx as int,
                    cy as int,
                    x as int,
                    y as int,
                    i + 1,
                ));
            }
            i = i + 1;
        }
        proof {
            let gy2: int = y + 1;
            let ge1: int = if err <= 0 {
                err + 2 * gy2 + 1
            } else {
                err as int
            };
            let gx2: int = if ge1 > 0 {
                x - 1
            } else {
                x as int
            };
            let ge2: int = if ge1 > 0 {
                ge1 - (2 * gx2 + 1)
            } else {
                ge1
            };
            assert(pre == ring_points(cx as int, cy as int, x as int, y as int, width as int)
                + circle_positions(cx as int, cy as int, gx2, gy2, ge2, width as int));
            assert(out@ + circle_positions(cx as int, cy as int, gx2, gy2, ge2, width as int)
                =~= base + pre);
        }
        y = y + 1;
        if err <= 0 {
            err = err + 2 * y + 1;
        }
        if err > 0 {
            x = x - 1;
            err = err - (2 * x + 1);
        }
    }
    proof {
        assert(circle_positions(cx as int, cy as int, x as int, y as int, err as int,
        width as int) =~= Seq::<(i64, i64)>::empty());
        assert(out@ + Seq::<(i64, i64)>::empty() =~= out@);
    }
    out
}


/// The distance between two points, rounded down.
pub fn calculate_distance(point1: &Point, point2: &Point) -> (d: i64)
    requires
        point1.wf(),
        point2.wf(),
    ensures
        d == sqrt_nat(
            (point2.x - point1.x) * (point2.x - point1.x) + (point2.y - point1.y) * (point2.y
                - point1.y),
        ),
        0 <= d <= 3 * (COORD_LIMIT as int),
{
    let dx = point2.x - point1.x;
    let dy = point2.y - point1.y;
    let adx: i64 = if dx < 0 {
        -dx
    } else {
        dx
    };
    let ady: i64 = if dy < 0 {
        -dy
    } else {
        dy
    };
    proof {
        assert((adx as int) * (adx as int) + (ady as int) * (ady as int) <= 0x8000_0000_0000_0000
            && (adx as int) * (adx as int) == (dx as int) * (dx as int) && (ady as int) * (
        ady as int) == (dy as int) * (dy as int)) by (nonlinear_arith)
            requires
                0 <= adx <= 2 * (COORD_LIMIT as int),
                0 <= ady <= 2 * (COORD_LIMIT as int),
                adx == abs_i(dx as int),
                ady == abs_i(dy as int),
                dx == point2.x - point1.x,
                dy == point2.y - point1.y,
        ;
    }
    let n: u64 = (adx as u64) * (adx as u64) + (ady as u64) * (ady as u64);
    let d = isqrt64(n);
    proof {
        assert((3 * (COORD_LIMIT as int)) * (3 * (COORD_LIMIT as int)) >= n) by (nonlinear_arith)
            requires
                n <= 2 * (2 * (COORD_LIMIT as int)) * (2 * (COORD_LIMIT as int)),
        ;
        assert(d <= 3 * (COORD_LIMIT as int)) by (nonlinear_arith)
            requires
                (d as int) * (d as int) <= n,
                (3 * (COORD_LIMIT as int)) * (3 * (COORD_LIMIT as int)) >= n,
                0 <= d,
        ;
        assert(n <= 2 * (2 * (COORD_LIMIT as int)) * (2 * (COORD_LIMIT as int)))
            by (nonlinear_arith)
            requires
                n as int == (adx as int) * (adx as int) + (ady as int) * (ady as int),
                0 <= adx <= 2 * (COORD_LIMIT as int),
                0 <= ady <= 2 * (COORD_LIMIT as int),
        ;
    }
    d as i64
}

/// The radius of the circle around `center` through a point on its rim.
pub fn calculate_radius(center: Point, point_on_circumference: Point) -> (r: i64)
    requires
        center.wf(),
        point_on_circumference.wf(),
    ensures
        r == sqrt_nat(
            (point_on_circumference.x - center.x) * (point_on_circumference.x - center.x) + (
            point_on_circumference.y - center.y) * (point_on_circumference.y - center.y),
        ),
        0 <= r <= 3 * (COORD_LIMIT as int),
{
    calculate_distance(&center, &point_on_circumference)
}

/// The vertices of the equilateral triangle the shape tool draws for an
/// anchor and a pointer position: the anchor-to-pointer distance gives
/// the side length, the apex sits one circumradius (`side / sqrt(3)`,
/// taken as 577/1000) above the anchor, and the base corners sit half a
/// side aside and one inradius (`side / (2 * sqrt(3))`, taken as
/// 289/1000) below it.
pub open spec fn triangle_vertices(initial: Point, current: Point) -> (Point, Point, Point) {
    let side = sqrt_nat(
        (current.x - initial.x) * (current.x - initial.x) + (current.y - initial.y) * (current.y
            - initial.y),
    );
    (
        Point { x: initial.x, y: (initial.y - (side * 577) / 1000) as i64 },
        Point {
            x: (initial.x - side / 2) as i64,
            y: (initial.y + (side * 289) / 1000) as i64,
        },
        Point {
            x: (initial.x + side / 2) as i64,
            y: (initial.y + (side * 289) / 1000) as i64,
        },
    )
}

/// Whether `(x, y)` lies on the border band of thickness `t - 1` just
/// inside the rectangle with corners `(tlx, tly)` and `(brx, bry)`.
pub open spec fn in_rect_border(
    tlx: int,
    tly: int,
    brx: int,
    bry: int,
    t: int,
    x: int,
    y: int,
) -> bool {
    tlx <= x <= brx && tly <= y <= bry && (x < tlx + t - 1 || x > brx - t + 1 || y < tly + t - 1
        || y > bry - t + 1)
}

/// An in-progress annotation: a path of points with a color and a stroke
/// width. The tools render it into a fresh transparent overlay which is
/// alpha-blended over the committed canvas on release.
pub struct Stroke {
    pub points: Vec<Point>,
    pub color: Rgba,
    pub width: u32,
}

impl Stroke {
    pub open spec fn wf(self) -> bool {
        &&& 1 <= self.width <= COORD_LIMIT
        &&& forall|i: int| 0 <= i < self.points@.len() ==> (#[trigger] self.points@[i]).wf()
    }

    pub fn new(points: Vec<Point>, color: Rgba, width: u32) -> (s: Stroke)
        ensures
            s.points == points,
            s.color == color,
            s.width == width,
    {
        Stroke { points, color, width }
    }

    /// A pointless black stroke of width two, ready to collect points.
    pub fn new_empty() -> (s: Stroke)
        ensures
            s.points@.len() == 0,
            s.color == (Rgba { r: 0, g: 0, b: 0, a: 255 }),
            s.width == 2,
            s.wf(),
    {
        Stroke { points: Vec::new(), color: Rgba { r: 0, g: 0, b: 0, a: 255 }, width: 2 }
    }

    /// Renders the freehand stroke into a fresh transparent canvas of the
    /// given size: a `width * width` square of the stroke color at every
    /// integer step along every segment of the path, and nothing else.
    pub fn draw(&self, size: (u32, u32)) -> (img: Canvas)
        requires
            self.wf(),
            size.0 <= MAX_DIM,
            size.1 <= MAX_DIM,
        ensures
            img.wf(),
            img.width == size.0,
            img.height == size.1,
            forall|x: int, y: int|
                0 <= x < size.0 && 0 <= y < size.1 ==> #[trigger] img.pix(x, y) == (if covered(
                    stroke_positions(self.points@),
                    self.width as int,
                    x,
                    y,
                ) {
                    self.color
                } else {
                    Rgba { r: 0, g: 0, b: 0, a: 0 }
                }),
    {
        let mut img = Canvas::new(size.0, size.1);
        let positions = stroke_positions_exec(&self.points);
        stamp_squares(&mut img, &positions, self.width, self.color);
        proof {
            assert forall|x: int, y: int| 0 <= x < size.0 && 0 <= y < size.1 implies #[trigger]
            img.pix(x, y) == (if covered(
                stroke_positions(self.points@),
                self.width as int,
                x,
                y,
            ) {
                self.color
            } else {
                Rgba { r: 0, g: 0, b: 0, a: 0 }
            }) by {
                lemma_pixel_index(size.0 as int, size.1 as int, x, y);
            }
        }
        img
    }

    /// Renders a midpoint circle around `center` into a fresh transparent
    /// canvas: exactly the widened octant pixels of the algorithm carry the
    /// stroke color.
    pub fn draw_circle(&self, center: Point, radius: i64, size: (u32, u32)) -> (img: Canvas)
        requires
            self.wf(),
            center.wf(),
            0 <= radius <= 3 * (COORD_LIMIT as int),
            size.0 <= MAX_DIM,
            size.1 <= MAX_DIM,
        ensures
            img.wf(),
            img.width == size.0,
            img.height == size.1,
            forall|x: int, y: int|
                0 <= x < size.0 && 0 <= y < size.1 ==> #[trigger] img.pix(x, y) == (if covered(
                    circle_positions(
                        center.x as int,
                        center.y as int,
                        radius as int,
                        0,
                        0,
                        self.width as int,
                    ),
                    1,
                    x,
                    y,
                ) {
                    self.color
                } else {
                    Rgba { r: 0, g: 0, b: 0, a: 0 }
                }),
    {
        let mut img = Canvas::new(size.0, size.1);
        let positions = circle_positions_exec(center.x, center.y, radius, self.width);
        stamp_squares(&mut img, &positions, 1, self.color);
        proof {
            assert forall|x: int, y: int| 0 <= x < size.0 && 0 <= y < size.1 implies #[trigger]
            img.pix(x, y) == (if covered(
                circle_positions(
                    center.x as int,
                    center.y as int,
                    radius as int,
                    0,
                    0,
                    self.width as int,
                ),
                1,
                x,
                y,
            ) {
                self.color
            } else {
                Rgba { r: 0, g: 0, b: 0, a: 0 }
            }) by {
                lemma_pixel_index(size.0 as int, size.1 as int, x, y);
            }
        }
        img
    }

    /// Draws a thickened Bresenham line onto `image`: every pixel covered
    /// by a `width * width` square anchored up-left of a visited point
    /// takes the stroke color; everything else keeps its value.
    pub fn draw_line(&self, image: &mut Canvas, start: Point, end: Point)
        requires
            self.wf(),
            old(image).wf(),
            -4 * (COORD_LIMIT as int) <= start.x <= 4 * (COORD_LIMIT as int),
            -4 * (COORD_LIMIT as int) <= start.y <= 4 * (COORD_LIMIT as int),
            -4 * (COORD_LIMIT as int) <= end.x <= 4 * (COORD_LIMIT as int),
            -4 * (COORD_LIMIT as int) <= end.y <= 4 * (COORD_LIMIT as int),
        ensures
            final(image).wf(),
            final(image).width == old(image).width,
            final(image).height == old(image).height,
            forall|x: int, y: int|
                0 <= x < old(image).width && 0 <= y < old(image).height
                    ==> #[trigger] final(image).pix(x, y) == (if covered(
                    line_stamps(start, end, self.width as int),
                    self.width as int,
                    x,
                    y,
                ) {
                    self.color
                } else {
                    old(image).pix(x, y)
                }),
    {
        let positions = line_positions_exec(start, end);
        let shifted = shift_positions_exec(&positions, (self.width - 1) as i64);
        stamp_squares(image, &shifted, self.width, self.color);
    }

    /// Renders the outline of the axis-aligned rectangle spanned by the
    /// two drag points into a fresh transparent canvas: exactly the border
    /// band one wider than the stroke width carries the color, the
    /// interior stays transparent.
    pub fn draw_enlarging_rectangle(&self, initial_position: Point, current_position: Point, size: (
        u32,
        u32,
    )) -> (img: Canvas)
        requires
            self.wf(),
            initial_position.wf(),
            current_position.wf(),
            self.width < COORD_LIMIT,
            size.0 <= MAX_DIM,
            size.1 <= MAX_DIM,
        ensures
            img.wf(),
            img.width == size.0,
            img.height == size.1,
            forall|x: int, y: int|
                0 <= x < size.0 && 0 <= y < size.1 ==> #[trigger] img.pix(x, y) == (if
                in_rect_border(
                    if initial_position.x <= current_position.x {
                        initial_position.x as int
                    } else {
                        current_position.x as int
                    },
                    if initial_position.y <= current_position.y {
                        initial_position.y as int
                    } else {
                        current_position.y as int
                    },
                    if initial_position.x <= current_position.x {
                        current_position.x as int
                    } else {
                        initial_position.x as int
                    },
                    if initial_position.y <= current_position.y {
                        current_position.y as int
                    } else {
                        initial_position.y as int
                    },
                    self.width + 1,
                    x,
                    y,
                ) {
                    self.color
                } else {
                    Rgba { r: 0, g: 0, b: 0, a: 0 }
                }),
    {
        let tlx: i64 = if initial_position.x <= current_position.x {
            initial_position.x
        } else {
            current_position.x
        };
        let tly: i64 = if initial_position.y <= current_position.y {
            initial_position.y
        } else {
            current_position.y
        };
        let brx: i64 = if initial_position.x <= current_position.x {
            current_position.x
        } else {
            initial_position.x
        };
        let bry: i64 = if initial_position.y <= current_position.y {
            current_position.y
        } else {
            initial_position.y
        };
        let t: i64 = self.width as i64 + 1;
        let bw: i64 = brx - tlx + 1;
        let bh: i64 = bry - tly + 1;
        let band: i64 = t - 1;
        let top_h: i64 = if band < bh {
            band
        } else {
            bh
        };
        let left_w: i64 = if band < bw {
            band
        } else {
            bw
        };
        let bot_y: i64 = if bry - t + 2 > tly {
            bry - t + 2
        } else {
            tly
        };
        let right_x: i64 = if brx - t + 2 > tlx {
            brx - t + 2
        } else {
            tlx
        };
        let mut img = Canvas::new(size.0, size.1);
        stamp_rect(&mut img, tlx, tly, bw, top_h, self.color);
        stamp_rect(&mut img, tlx, bot_y, bw, bry - bot_y + 1, self.color);
        stamp_rect(&mut img, tlx, tly, left_w, bh, self.color);
        stamp_rect(&mut img, right_x, tly, brx - right_x + 1, bh, self.color);
        proof {
            assert forall|x: int, y: int| 0 <= x < size.0 && 0 <= y < size.1 implies #[trigger]
            img.pix(x, y) == (if in_rect_border(
                tlx as int,
                tly as int,
                brx as int,
                bry as int,
                t as int,
                x,
                y,
            ) {
                self.color
            } else {
                Rgba { r: 0, g: 0, b: 0, a: 0 }
            }) by {
                lemma_pixel_index(size.0 as int, size.1 as int, x, y);
            }
        }
        img
    }

    /// Renders the equilateral-style triangle the shape tool derives from
    /// the drag into a fresh transparent canvas: exactly the pixels of the
    /// three thickened edges carry the color.
    pub fn draw_enlarging_triangle(&self, initial_position: Point, current_position: Point, size: (
        u32,
        u32,
    )) -> (img: Canvas)
        requires
            self.wf(),
            initial_position.wf(),
            current_position.wf(),
            size.0 <= MAX_DIM,
            size.1 <= MAX_DIM,
        ensures
            img.wf(),
            img.width == size.0,
            img.height == size.1,
            ({
                let v = triangle_vertices(initial_position, current_position);
                forall|x: int, y: int|
                    0 <= x < size.0 && 0 <= y < size.1 ==> #[trigger] img.pix(x, y) == (if covered(
                        line_stamps(v.0, v.1, self.width as int),
                        self.width as int,
                        x,
                        y,
                    ) || covered(line_stamps(v.1, v.2, self.width as int), self.width as int, x, y)
                        || covered(
                        line_stamps(v.2, v.0, self.width as int),
                        self.width as int,
                        x,
                        y,
                    ) {
                        self.color
                    } else {
                        Rgba { r: 0, g: 0, b: 0, a: 0 }
                    })
            }),
    {
        let side = calculate_distance(&initial_position, &current_position);
        let y_up: i64 = initial_position.y - (side * 577) / 1000;
        let y_down: i64 = initial_position.y + (side * 289) / 1000;
        let half: i64 = side / 2;
        let v1 = Point { x: initial_position.x, y: y_up };
        let v2 = Point { x: initial_position.x - half, y: y_down };
        let v3 = Point { x: initial_position.x + half, y: y_down };
        proof {
            assert(0 <= (side * 577) / 1000 <= side * 577) by (nonlinear_arith)
                requires
                    0 <= side,
            ;
            assert(0 <= (side * 289) / 1000 <= side * 289) by (nonlinear_arith)
                requires
                    0 <= side,
            ;
            assert(side * 577 <= 2000 * (COORD_LIMIT as int) && side * 289 <= 1000 * (
            COORD_LIMIT as int)) by (nonlinear_arith)
                requires
                    0 <= side <= 3 * (COORD_LIMIT as int),
            ;
            assert((side * 577) / 1000 <= (side * 1000) / 1000 && (side * 289) / 1000 <= (side
                * 1000) / 1000) by (nonlinear_arith)
                requires
                    0 <= side,
            ;
            assert((side * 1000) / 1000 == side as int) by (nonlinear_arith);
            assert((v1, v2, v3) == triangle_vertices(initial_position, current_position));
        }
        let mut img = Canvas::new(size.0, size.1);
        self.draw_line(&mut img, v1, v2);
        self.draw_line(&mut img, v2, v3);
        self.draw_line(&mut img, v3, v1);
        proof {
            let w = self.width as int;
            assert forall|x: int, y: int| 0 <= x < size.0 && 0 <= y < size.1 implies #[trigger]
            img.pix(x, y) == (if covered(line_stamps(v1, v2, w), w, x, y) || covered(
                line_stamps(v2, v3, w),
                w,
                x,
                y,
            ) || covered(line_stamps(v3, v1, w), w, x, y) {
                self.color
            } else {
                Rgba { r: 0, g: 0, b: 0, a: 0 }
            }) by {
                lemma_pixel_index(size.0 as int, size.1 as int, x, y);
            }
        }
        img
    }
}

} // verus!
