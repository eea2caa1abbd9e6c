//! Points and axis-aligned rectangles in virtual-desktop coordinates.
//!
//! A selection is dragged out between two corners in any order and is only
//! normalized (`x0 <= x1`, `y0 <= y1`) when it is consumed. The helpers here
//! also compute the decoration rectangles that the overlay paints around a
//! selection: the dimmed surroundings, a border band and the corner handles.

use vstd::prelude::*;

verus! {

/// Largest coordinate magnitude the library works with; keeps every sum and
/// product of a handful of coordinates inside `i64`.
pub const COORD_LIMIT: i64 = 0x4000_0000;

/// A coordinate small enough that sums of a few of them cannot overflow.
pub open spec fn coord_ok(v: int) -> bool {
    -(COORD_LIMIT as int) <= v <= COORD_LIMIT as int
}

#[derive(Clone, Copy, PartialEq, Eq, Structural, Debug)]
pub struct Point {
    pub x: i64,
    pub y: i64,
}

#[derive(Clone, Copy, PartialEq, Eq, Structural, Debug)]
pub struct Rect {
    pub x0: i64,
    pub y0: i64,
    pub x1: i64,
    pub y1: i64,
}

impl Point {
    pub open spec fn wf(self) -> bool {
        coord_ok(self.x as int) && coord_ok(self.y as int)
    }

    pub fn new(x: i64, y: i64) -> (p: Point)
        ensures
            p.x == x,
            p.y == y,
    {
        Point { x, y }
    }

    /// Whether the point lies in the axis-aligned box spanned by `origin` and
    /// a non-negative `width`/`height` extent, borders included.
    pub fn is_inside_rect(&self, origin: Point, width: i64, height: i64) -> (r: bool)
        requires
            self.wf(),
            origin.wf(),
            0 <= width <= COORD_LIMIT,
            0 <= height <= COORD_LIMIT,
        ensures
            r == (origin.x <= self.x <= origin.x + width && origin.y <= self.y <= origin.y
                + height),
    {
        self.x >= origin.x && self.x <= origin.x + width && self.y >= origin.y && self.y
            <= origin.y + height
    }

    /// Whether the point lies in `rect`, taken corner-for-corner as given
    /// (only meaningful on a normalized rectangle), borders included.
    pub fn is_inside_direct_rect(&self, rect: Rect) -> (r: bool)
        ensures
            r == (rect.x0 <= self.x <= rect.x1 && rect.y0 <= self.y <= rect.y1),
    {
        self.x >= rect.x0 && self.x <= rect.x1 && self.y >= rect.y0 && self.y <= rect.y1
    }
}

/// The normalized form of a rectangle: smaller coordinates first on each axis.
pub open spec fn normalize_spec(r: Rect) -> Rect {
    Rect {
        x0: if r.x0 <= r.x1 {
            r.x0
        } else {
            r.x1
        },
        y0: if r.y0 <= r.y1 {
            r.y0
        } else {
            r.y1
        },
        x1: if r.x0 <= r.x1 {
            r.x1
        } else {
            r.x0
        },
        y1: if r.y0 <= r.y1 {
            r.y1
        } else {
            r.y0
        },
    }
}

impl Rect {
    pub open spec fn wf(self) -> bool {
        coord_ok(self.x0 as int) && coord_ok(self.y0 as int) && coord_ok(self.x1 as int)
            && coord_ok(self.y1 as int)
    }

    pub open spec fn is_normalized(self) -> bool {
        self.x0 <= self.x1 && self.y0 <= self.y1
    }

    pub open spec fn width_spec(self) -> int {
        self.x1 - self.x0
    }

    pub open spec fn height_spec(self) -> int {
        self.y1 - self.y0
    }

    pub fn new(x0: i64, y0: i64, x1: i64, y1: i64) -> (r: Rect)
        ensures
            r == (Rect { x0, y0, x1, y1 }),
    {
        Rect { x0, y0, x1, y1 }
    }

    /// The normalized rectangle spanned by two corner points, in any order.
    pub fn from_points(a: Point, b: Point) -> (r: Rect)
        ensures
            r == normalize_spec(Rect { x0: a.x, y0: a.y, x1: b.x, y1: b.y }),
            r.is_normalized(),
    {
        Rect {
            x0: if a.x <= b.x {
                a.x
            } else {
                b.x
            },
            y0: if a.y <= b.y {
                a.y
            } else {
                b.y
            },
            x1: if a.x <= b.x {
                b.x
            } else {
                a.x
            },
            y1: if a.y <= b.y {
                b.y
            } else {
                a.y
            },
        }
    }

    /// Reorders the corners so that `x0 <= x1` and `y0 <= y1`.
    pub fn normalize(&self) -> (r: Rect)
        ensures
            r == normalize_spec(*self),
            r.is_normalized(),
    {
        Rect::from_points(Point { x: self.x0, y: self.y0 }, Point { x: self.x1, y: self.y1 })
    }

    pub fn width(&self) -> (w: i64)
        requires
            self.wf(),
        ensures
            w == self.width_spec(),
    {
        self.x1 - self.x0
    }

    pub fn height(&self) -> (h: i64)
        requires
            self.wf(),
        ensures
            h == self.height_spec(),
    {
        self.y1 - self.y0
    }

    /// Signed area; positive exactly when the rectangle is normalized and
    /// non-degenerate on both axes.
    pub fn area(&self) -> (a: i64)
        requires
            self.wf(),
        ensures
            a == self.width_spec() * self.height_spec(),
    {
        let w = self.x1 - self.x0;
        let h = self.y1 - self.y0;
        proof {
            lemma_bounded_product(w as int, h as int);
        }
        w * h
    }

    /// Clamps each edge of the rectangle so it never leaves `bounds`.
    pub fn clamp_to(&self, bounds: Rect) -> (r: Rect)
        ensures
            r == clamp_spec(*self, bounds),
            r.x0 == if self.x0 < bounds.x0 {
                bounds.x0
            } else {
                self.x0
            },
            r.y0 == if self.y0 < bounds.y0 {
                bounds.y0
            } else {
                self.y0
            },
            r.x1 == if self.x1 > bounds.x1 {
                bounds.x1
            } else {
                self.x1
            },
            r.y1 == if self.y1 > bounds.y1 {
                bounds.y1
            } else {
                self.y1
            },
    {
        let mut out = *self;
        if out.x1 > bounds.x1 {
            out.x1 = bounds.x1;
        }
        if out.y1 > bounds.y1 {
            out.y1 = bounds.y1;
        }
        if out.x0 < bounds.x0 {
            out.x0 = bounds.x0;
        }
        if out.y0 < bounds.y0 {
            out.y0 = bounds.y0;
        }
        out
    }
}

/// The rectangle with each edge clamped into `bounds`.
pub open spec fn clamp_spec(r: Rect, bounds: Rect) -> Rect {
    Rect {
        x0: if r.x0 < bounds.x0 {
            bounds.x0
        } else {
            r.x0
        },
        y0: if r.y0 < bounds.y0 {
            bounds.y0
        } else {
            r.y0
        },
        x1: if r.x1 > bounds.x1 {
            bounds.x1
        } else {
            r.x1
        },
        y1: if r.y1 > bounds.y1 {
            bounds.y1
        } else {
            r.y1
        },
    }
}

proof fn lemma_bounded_product(a: int, b: int)
    requires
        -2 * (COORD_LIMIT as int) <= a <= 2 * (COORD_LIMIT as int),
        -2 * (COORD_LIMIT as int) <= b <= 2 * (COORD_LIMIT as int),
    ensures
        i64::MIN <= a * b <= i64::MAX,
{
    assert(i64::MIN <= a * b <= i64::MAX) by (nonlinear_arith)
        requires
            -2 * (COORD_LIMIT as int) <= a <= 2 * (COORD_LIMIT as int),
            -2 * (COORD_LIMIT as int) <= b <= 2 * (COORD_LIMIT as int),
    ;
}

/// Normalization settles the corner order once and for all: starting from the
/// corners in either order, or normalizing a second time, yields the same
/// rectangle.
pub proof fn lemma_normalize_idempotent(r: Rect)
    ensures
        normalize_spec(normalize_spec(r)) == normalize_spec(r),
        normalize_spec(Rect { x0: r.x1, y0: r.y1, x1: r.x0, y1: r.y0 }) == normalize_spec(r),
{
}

/// Translates a point by the given offsets (the editor maps widget
/// coordinates onto canvas coordinates this way).
pub fn apply_scaling_to_point(translation: (i64, i64), point: Point) -> (p: Point)
    requires
        point.wf(),
        coord_ok(translation.0 as int),
        coord_ok(translation.1 as int),
    ensures
        p.x == point.x + translation.0,
        p.y == point.y + translation.1,
{
    Point { x: point.x + translation.0, y: point.y + translation.1 }
}

/// Translates every point of a path by the given offsets.
pub fn apply_scaling(translation: (i64, i64), points: &Vec<Point>) -> (r: Vec<Point>)
    requires
        coord_ok(translation.0 as int),
        coord_ok(translation.1 as int),
        forall|i: int| 0 <= i < points@.len() ==> (#[trigger] points@[i]).wf(),
    ensures
        r@.len() == points@.len(),
        forall|i: int|
            0 <= i < points@.len() ==> #[trigger] r@[i] == (Point {
                x: (points@[i].x + translation.0) as i64,
                y: (points@[i].y + translation.1) as i64,
            }),
{
    let mut out: Vec<Point> = Vec::new();
    let mut i: usize = 0;
    while i < points.len()
        invariant
            i <= points@.len(),
            coord_ok(translation.0 as int),
            coord_ok(translation.1 as int),
            forall|j: int| 0 <= j < points@.len() ==> (#[trigger] points@[j]).wf(),
            out@.len() == i,
            forall|j: int|
                0 <= j < i ==> #[trigger] out@[j] == (Point {
                    x: (points@[j].x + translation.0) as i64,
                    y: (points@[j].y + translation.1) as i64,
                }),
        decreases points@.len() - i,
    {
        let p = points[i];
        out.push(Point { x: p.x + translation.0, y: p.y + translation.1 });
        i = i + 1;
    }
    out
}

/// The rectangles that cover everything of `a` outside `b`: the overlay dims
/// these four regions while a selection `b` is alive inside the surface `a`.
pub open spec fn surrounding_spec(a: Rect, b: Rect) -> Seq<Rect> {
    let above = if b.y1 < a.y1 {
        seq![Rect { x0: b.x0, x1: b.x1, y0: b.y1, y1: a.y1 }]
    } else {
        Seq::<Rect>::empty()
    };
    let below = if b.y0 > a.y0 {
        seq![Rect { x0: b.x0, x1: b.x1, y0: a.y0, y1: b.y0 }]
    } else {
        Seq::<Rect>::empty()
    };
    let left = if b.x0 > a.x0 {
        seq![Rect { x0: a.x0, x1: b.x0, y0: a.y0, y1: a.y1 }]
    } else {
        Seq::<Rect>::empty()
    };
    let right = if b.x1 < a.x1 {
        seq![Rect { x0: b.x1, x1: a.x1, y0: a.y0, y1: a.y1 }]
    } else {
        Seq::<Rect>::empty()
    };
    above + below + left + right
}

/// Computes the up-to-four rectangles of `a` that surround `b`.
pub fn surrounding_rectangles(a: Rect, b: Rect) -> (r: Vec<Rect>)
    ensures
        r@ == surrounding_spec(a, b),
{
    let mut result: Vec<Rect> = Vec::new();
    if b.y1 < a.y1 {
        result.push(Rect { x0: b.x0, x1: b.x1, y0: b.y1, y1: a.y1 });
    }
    if b.y0 > a.y0 {
        result.push(Rect { x0: b.x0, x1: b.x1, y0: a.y0, y1: b.y0 });
    }
    if b.x0 > a.x0 {
        result.push(Rect { x0: a.x0, x1: b.x0, y0: a.y0, y1: a.y1 });
    }
    if b.x1 < a.x1 {
        result.push(Rect { x0: b.x1, x1: a.x1, y0: a.y0, y1: a.y1 });
    }
    proof {
        assert(result@ =~= surrounding_spec(a, b));
    }
    result
}

/// The four bands of thickness `border_width` hugging the edges of `rect`.
pub open spec fn border_spec(rect: Rect, border_width: int) -> Seq<Rect> {
    seq![
        Rect {
            x0: (rect.x0 - border_width) as i64,
            x1: (rect.x1 + border_width) as i64,
            y0: (rect.y0 - border_width) as i64,
            y1: rect.y0,
        },
        Rect {
            x0: (rect.x0 - border_width) as i64,
            x1: (rect.x1 + border_width) as i64,
            y0: rect.y1,
            y1: (rect.y1 + border_width) as i64,
        },
        Rect { x0: (rect.x0 - border_width) as i64, x1: rect.x0, y0: rect.y0, y1: rect.y1 },
        Rect { x0: rect.x1, x1: (rect.x1 + border_width) as i64, y0: rect.y0, y1: rect.y1 },
    ]
}

/// Computes the four border bands painted around a live selection.
pub fn create_border_rectangles(rect: Rect, border_width: i64) -> (r: Vec<Rect>)
    requires
        rect.wf(),
        0 <= border_width <= COORD_LIMIT,
    ensures
        r@ == border_spec(rect, border_width as int),
{
    let mut result: Vec<Rect> = Vec::new();
    result.push(
        Rect {
            x0: rect.x0 - border_width,
            x1: rect.x1 + border_width,
            y0: rect.y0 - border_width,
            y1: rect.y0,
        },
    );
    result.push(
        Rect {
            x0: rect.x0 - border_width,
            x1: rect.x1 + border_width,
            y0: rect.y1,
            y1: rect.y1 + border_width,
        },
    );
    result.push(Rect { x0: rect.x0 - border_width, x1: rect.x0, y0: rect.y0, y1: rect.y1 });
    result.push(Rect { x0: rect.x1, x1: rect.x1 + border_width, y0: rect.y0, y1: rect.y1 });
    proof {
        assert(result@ =~= border_spec(rect, border_width as int));
    }
    result
}

/// The eight strips forming an L-shaped handle at each corner of `rect`,
/// drawn `padding` outside it with the given arm `length` and `width`.
pub open spec fn l_shape_spec(rect: Rect, length: int, width: int, padding: int) -> Seq<Rect> {
    seq![
        Rect {
            x0: (rect.x0 - padding + width) as i64,
            x1: (rect.x0 - padding) as i64,
            y0: (rect.y1 + padding - length) as i64,
            y1: (rect.y1 + padding) as i64,
        },
        Rect {
            x0: (rect.x1 + padding) as i64,
            x1: (rect.x1 + padding - width) as i64,
            y0: (rect.y1 + padding - length) as i64,
            y1: (rect.y1 + padding) as i64,
        },
        Rect {
            x0: (rect.x0 - padding + width) as i64,
            x1: (rect.x0 - padding) as i64,
            y0: (rect.y0 - padding) as i64,
            y1: (rect.y0 - padding + length) as i64,
        },
        Rect {
            x0: (rect.x1 + padding) as i64,
            x1: (rect.x1 + padding - width) as i64,
            y0: (rect.y0 - padding) as i64,
            y1: (rect.y0 - padding + length) as i64,
        },
        Rect {
            x0: (rect.x0 - padding + length) as i64,
            x1: (rect.x0 - padding) as i64,
            y0: (rect.y1 + padding - width) as i64,
            y1: (rect.y1 + padding) as i64,
        },
        Rect {
            x0: (rect.x0 - padding + length) as i64,
            x1: (rect.x0 - padding) as i64,
            y0: (rect.y0 - padding) as i64,
            y1: (rect.y0 - padding + width) as i64,
        },
        Rect {
            x0: (rect.x1 + padding) as i64,
            x1: (rect.x1 + padding - length) as i64,
            y0: (rect.y1 + padding - width) as i64,
            y1: (rect.y1 + padding) as i64,
        },
        Rect {
            x0: (rect.x1 + padding) as i64,
            x1: (rect.x1 + padding - length) as i64,
            y0: (rect.y0 - padding) as i64,
            y1: (rect.y0 - padding + width) as i64,
        },
    ]
}

/// Computes the eight corner-handle strips painted around a confirmed
/// selection.
pub fn create_l_shaped_rectangles(rect: Rect, length: i64, width: i64, padding: i64) -> (r: Vec<
    Rect,
>)
    requires
        rect.wf(),
        0 <= length <= COORD_LIMIT,
        0 <= width <= COORD_LIMIT,
        0 <= padding <= COORD_LIMIT,
        width <= length,
    ensures
        r@ == l_shape_spec(rect, length as int, width as int, padding as int),
{
    let mut result: Vec<Rect> = Vec::new();
    result.push(
        Rect {
            x0: rect.x0 - padding + width,
            x1: rect.x0 - padding,
            y0: rect.y1 + padding - length,
            y1: rect.y1 + padding,
        },
    );
    result.push(
        Rect {
            x0: rect.x1 + padding,
            x1: rect.x1 + padding - width,
            y0: rect.y1 + padding - length,
            y1: rect.y1 + padding,
        },
    );
    result.push(
        Rect {
            x0: rect.x0 - padding + width,
            x1: rect.x0 - padding,
            y0: rect.y0 - padding,
            y1: rect.y0 - padding + length,
        },
    );
    result.push(
        Rect {
            x0: rect.x1 + padding,
            x1: rect.x1 + padding - width,
            y0: rect.y0 - padding,
            y1: rect.y0 - padding + length,
        },
    );
    result.push(
        Rect {
            x0: rect.x0 - padding + length,
            x1: rect.x0 - padding,
            y0: rect.y1 + padding - width,
            y1: rect.y1 + padding,
        },
    );
    result.push(
        Rect {
            x0: rect.x0 - padding + length,
            x1: rect.x0 - padding,
            y0: rect.y0 - padding,
            y1: rect.y0 - padding + width,
        },
    );
    result.push(
        Rect {
            x0: rect.x1 + padding,
            x1: rect.x1 + padding - length,
            y0: rect.y1 + padding - width,
            y1: rect.y1 + padding,
        },
    );
    result.push(
        Rect {
            x0: rect.x1 + padding,
            x1: rect.x1 + padding - length,
            y0: rect.y0 - padding,
            y1: rect.y0 - padding + width,
        },
    );
    proof {
        assert(result@ =~= l_shape_spec(rect, length as int, width as int, padding as int));
    }
    result
}

} // verus!
