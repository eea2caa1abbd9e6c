//! The annotation editor: tool selection, stroke and shape rendering into
//! a transient overlay, blending on release, crop-and-resize, and bounded
//! undo/redo.
//!
//! The editor holds the committed canvas inside its history; a drawing
//! gesture renders into a transient overlay which is alpha-blended over
//! the canvas and committed when the pointer is released. The toolbar
//! rows double up: the leading icon switches between the tool groups and
//! the crop tool, and the remaining three icons pick a tool, a color, a
//! pencil size or a shape depending on the active group.

use vstd::prelude::*;
use crate::canvas::{blend_pixel, byte_of_pixel, fit_height, fit_width, resample_of, rgba_at,
    Canvas, Rgba, MAX_DIM};
use crate::draw::{circle_positions, covered, in_rect_border, line_stamps, sqrt_nat,
    stroke_positions, triangle_vertices, Stroke};
use crate::geometry::{apply_scaling, apply_scaling_to_point, coord_ok, normalize_spec, Point,
    Rect, COORD_LIMIT};
use crate::history::EditHistory;

verus! {

/// Half the coordinate limit: widget coordinates and the widget-to-canvas
/// translation both stay inside it, so their sums stay inside the limit.
pub const HALF_LIMIT: i64 = 0x2000_0000;

/// The width the crop tool rescales to.
pub const RESIZE_TARGET_W: u32 = 1200;

/// The height the crop tool rescales to.
pub const RESIZE_TARGET_H: u32 = 500;

/// The buttons of the editor's two icon rows.
#[derive(Clone, Copy, PartialEq, Eq, Structural, Debug)]
pub enum EditButton {
    First,
    Second,
    Third,
    Fourth,
    Undo,
    Redo,
    Save,
    ConfirmResize,
}

/// What the caller must do after an editor event.
#[derive(Clone, Copy, PartialEq, Eq, Structural, Debug)]
pub enum EditEffect {
    Quiet,
    Repaint,
    SaveRequested,
}

/// The x position of top icon `i` on a widget of the given width.
pub open spec fn icon_x(w: int, i: int) -> int {
    (w - 256) / 5 + (64 + (w - 256) / 5) * i
}

/// The position of the bottom icon row's anchor.
pub open spec fn bottom_x(w: int) -> int {
    (w - 192) / 7
}

/// The x position of bottom slot `i` (undo/redo, confirm, save).
pub open spec fn bottom_slot_x(w: int, i: int) -> int {
    bottom_x(w) + (64 + bottom_x(w)) * i
}

/// Whether `p` lies in the box at `(ox, oy)` of size `bw * bh`.
pub open spec fn in_box(p: Point, ox: int, oy: int, bw: int, bh: int) -> bool {
    ox <= p.x <= ox + bw && oy <= p.y <= oy + bh
}

/// Which editor button a press at `p` hits on a widget of width `w`; the
/// confirm button is live only while a crop selection awaits confirmation.
pub open spec fn edit_clicked_spec(p: Point, w: int, resizing: u8) -> Option<EditButton> {
    if in_box(p, icon_x(w, 0), 15, 64, 64) {
        Some(EditButton::First)
    } else if in_box(p, icon_x(w, 1), 15, 64, 64) {
        Some(EditButton::Second)
    } else if in_box(p, icon_x(w, 2), 15, 64, 64) {
        Some(EditButton::Third)
    } else if in_box(p, icon_x(w, 3), 15, 64, 64) {
        Some(EditButton::Fourth)
    } else if in_box(p, bottom_slot_x(w, 1), 650, 32, 64) {
        Some(EditButton::Undo)
    } else if in_box(p, bottom_slot_x(w, 1) + 32, 650, 32, 64) {
        Some(EditButton::Redo)
    } else if in_box(p, bottom_slot_x(w, 3), 650, 64, 64) {
        Some(EditButton::Save)
    } else if in_box(p, bottom_slot_x(w, 2), 650, 64, 64) && resizing == 2 {
        Some(EditButton::ConfirmResize)
    } else {
        None
    }
}

/// A path translated point for point by the editor's widget-to-canvas
/// offsets.
pub open spec fn scaled_points(points: Seq<Point>, sc: (i64, i64)) -> Seq<Point> {
    Seq::new(
        points.len(),
        |i: int| Point { x: (points[i].x + sc.0) as i64, y: (points[i].y + sc.1) as i64 },
    )
}

/// One translated point.
pub open spec fn scaled_point(p: Point, sc: (i64, i64)) -> Point {
    Point { x: (p.x + sc.0) as i64, y: (p.y + sc.1) as i64 }
}

/// Half of an offset, rounded toward zero, as widget centering computes
/// it.
pub open spec fn center_half(v: int) -> int {
    if v >= 0 {
        v / 2
    } else {
        -((-v) / 2)
    }
}

/// The flat RGBA bytes of the `w * h` region of `c` at `(x, y)`.
pub open spec fn crop_bytes(c: Canvas, x: int, y: int, w: int, h: int) -> Seq<u8> {
    Seq::new((4 * w * h) as nat, |j: int| byte_of_pixel(c.pix(x + (j / 4) % w, y + (j / 4) / w), j % 4))
}

/// The editor's state: the active tool flags, the current color and
/// stroke width, the edit history, and the in-progress gesture.
pub struct Edit {
    pub color: Rgba,
    pub stroke_width: u32,
    pub color_variant: u8,
    pub drawing: bool,
    pub adding_shapes: bool,
    pub highlighting: bool,
    pub disable_event: bool,
    pub pencil_selected: bool,
    pub resizing: u8,
    pub history: EditHistory,
    pub temp_edit: Option<Canvas>,
    pub choosen_shape: u8,
    pub movement_points: Vec<Point>,
    pub initial_point: Option<Point>,
    pub selection: Option<Rect>,
    pub dest_rect: Option<Rect>,
    pub scaling: (i64, i64),
    pub active: bool,
}

impl Edit {
    /// Everything the editor's operations preserve: the history is sound,
    /// the stroke width usable, the gesture data within coordinate range.
    pub open spec fn wf(self) -> bool {
        &&& self.history.wf()
        &&& 1 <= self.stroke_width < COORD_LIMIT
        &&& forall|i: int|
            0 <= i < self.movement_points@.len() ==> {
                let q = #[trigger] self.movement_points@[i];
                0 <= q.x <= HALF_LIMIT && 0 <= q.y <= HALF_LIMIT
            }
        &&& match self.temp_edit {
            Some(c) => c.wf(),
            None => true,
        }
        &&& match self.initial_point {
            Some(p) => 0 <= p.x <= HALF_LIMIT && 0 <= p.y <= HALF_LIMIT,
            None => true,
        }
        &&& match self.dest_rect {
            Some(r) => r.wf() && r.is_normalized(),
            None => true,
        }
        &&& match self.selection {
            Some(r) => r.wf() && r.is_normalized(),
            None => true,
        }
        &&& -HALF_LIMIT <= self.scaling.0 <= HALF_LIMIT
        &&& -HALF_LIMIT <= self.scaling.1 <= HALF_LIMIT
    }

    /// A fresh editor over a captured canvas: black pencil of width ten,
    /// crop mode armed, a one-snapshot history.
    pub fn new(screenshot: Canvas) -> (e: Edit)
        requires
            screenshot.wf(),
        ensures
            e.wf(),
            e.history.snapshots@ == seq![screenshot],
            e.history.cursor == 1,
            e.color == (Rgba { r: 0, g: 0, b: 0, a: 255 }),
            e.stroke_width == 10,
            e.color_variant == 0,
            !e.drawing,
            !e.adding_shapes,
            !e.highlighting,
            !e.disable_event,
            !e.pencil_selected,
            e.resizing == 1,
            e.temp_edit is None,
            e.choosen_shape == 0,
            e.movement_points@.len() == 0,
            e.initial_point is None,
            e.selection is None,
            e.dest_rect is None,
            e.scaling == (0i64, 0i64),
            !e.active,
    {
        Edit {
            color: Rgba { r: 0, g: 0, b: 0, a: 255 },
            stroke_width: 10,
            color_variant: 0,
            drawing: false,
            adding_shapes: false,
            highlighting: false,
            disable_event: false,
            pencil_selected: false,
            resizing: 1,
            history: EditHistory::new(screenshot),
            temp_edit: None,
            choosen_shape: 0,
            movement_points: Vec::new(),
            initial_point: None,
            selection: None,
            dest_rect: None,
            scaling: (0, 0),
            active: false,
        }
    }

    /// Where the editor's eight buttons sit on a widget of the given
    /// width: the four tool icons along the top, then the undo, redo,
    /// confirm and save slots of the bottom row.
    pub fn get_buttons_positions(&self, widget_width: i64) -> (r: (
        Point,
        Point,
        Point,
        Point,
        Point,
        Point,
        Point,
        Point,
    ))
        requires
            256 <= widget_width <= HALF_LIMIT,
        ensures
            r.0 == (Point { x: icon_x(widget_width as int, 0) as i64, y: 15 }),
            r.1 == (Point { x: icon_x(widget_width as int, 1) as i64, y: 15 }),
            r.2 == (Point { x: icon_x(widget_width as int, 2) as i64, y: 15 }),
            r.3 == (Point { x: icon_x(widget_width as int, 3) as i64, y: 15 }),
            r.4 == (Point { x: bottom_slot_x(widget_width as int, 1) as i64, y: 650 }),
            r.5 == (Point { x: (bottom_slot_x(widget_width as int, 1) + 32) as i64, y: 650 }),
            r.6 == (Point { x: bottom_slot_x(widget_width as int, 2) as i64, y: 650 }),
            r.7 == (Point { x: bottom_slot_x(widget_width as int, 3) as i64, y: 650 }),
    {
        let spacing = (widget_width - 256) / 5;
        let icon0 = Point { x: spacing, y: 15 };
        let icon1 = Point { x: spacing + (64 + spacing) * 1, y: 15 };
        let icon2 = Point { x: spacing + (64 + spacing) * 2, y: 15 };
        let icon3 = Point { x: spacing + (64 + spacing) * 3, y: 15 };
        let bottom_spacing = (widget_width - 192) / 7;
        let back = Point { x: bottom_spacing + 64 + bottom_spacing, y: 650 };
        let forward = Point { x: bottom_spacing + 64 + bottom_spacing + 32, y: 650 };
        let check = Point { x: bottom_spacing + (64 + bottom_spacing) * 2, y: 650 };
        let save = Point { x: bottom_spacing + (64 + bottom_spacing) * 3, y: 650 };
        (icon0, icon1, icon2, icon3, back, forward, check, save)
    }

    /// Which button a press hits, if any.
    pub fn get_clicked_button(&self, mouse_pos: Point, widget_width: i64) -> (r: Option<EditButton>)
        requires
            256 <= widget_width <= HALF_LIMIT,
            mouse_pos.wf(),
        ensures
            r == edit_clicked_spec(mouse_pos, widget_width as int, self.resizing),
    {
        let (first, second, third, fourth, back, forward, check, save) =
            self.get_buttons_positions(widget_width);
        if mouse_pos.is_inside_rect(first, 64, 64) {
            Some(EditButton::First)
        } else if mouse_pos.is_inside_rect(second, 64, 64) {
            Some(EditButton::Second)
        } else if mouse_pos.is_inside_rect(third, 64, 64) {
            Some(EditButton::Third)
        } else if mouse_pos.is_inside_rect(fourth, 64, 64) {
            Some(EditButton::Fourth)
        } else if mouse_pos.is_inside_rect(back, 32, 64) {
            Some(EditButton::Undo)
        } else if mouse_pos.is_inside_rect(forward, 32, 64) {
            Some(EditButton::Redo)
        } else if mouse_pos.is_inside_rect(save, 64, 64) {
            Some(EditButton::Save)
        } else if mouse_pos.is_inside_rect(check, 64, 64) && self.resizing == 2 {
            Some(EditButton::ConfirmResize)
        } else {
            None
        }
    }

    /// Lays the canvas out centered on a widget and derives the
    /// widget-to-canvas translation the gesture coordinates use.
    pub fn compute_layout(&mut self, widget_width: i64, widget_height: i64)
        requires
            old(self).wf(),
            0 <= widget_width <= HALF_LIMIT,
            0 <= widget_height <= HALF_LIMIT,
        ensures
            final(self).wf(),
            *final(self) == (Edit {
                dest_rect: final(self).dest_rect,
                scaling: final(self).scaling,
                ..*old(self)
            }),
            ({
                let cw = old(self).history.current_spec().width as int;
                let ch = old(self).history.current_spec().height as int;
                let cx = center_half(widget_width - cw);
                let cy = center_half(widget_height + 20 - ch);
                &&& final(self).scaling == ((-cx) as i64, (-cy) as i64)
                &&& final(self).dest_rect == Some(
                    normalize_spec(
                        Rect {
                            x0: cx as i64,
                            y0: cy as i64,
                            x1: (cx + cw) as i64,
                            y1: (cy + ch) as i64,
                        },
                    ),
                )
            }),
    {
        let cw = self.history.current().width as i64;
        let ch = self.history.current().height as i64;
        let dx = widget_width - cw;
        let cx = if dx >= 0 {
            dx / 2
        } else {
            -((-dx) / 2)
        };
        let dy = widget_height + 20 - ch;
        let cy = if dy >= 0 {
            dy / 2
        } else {
            -((-dy) / 2)
        };
        self.scaling = (-cx, -cy);
        self.dest_rect = Some(
            Rect::from_points(Point { x: cx, y: cy }, Point { x: cx + cw, y: cy + ch }),
        );
    }

    /// Steps back one snapshot; at the oldest this is a silent no-op.
    pub fn undo(&mut self) -> (effect: EditEffect)
        requires
            old(self).wf(),
        ensures
            final(self).wf(),
            *final(self) == (Edit { history: final(self).history, ..*old(self) }),
            final(self).history == crate::history::undo_spec(old(self).history),
            effect == if old(self).history.cursor > 1 {
                EditEffect::Repaint
            } else {
                EditEffect::Quiet
            },
    {
        if self.history.undo() {
            EditEffect::Repaint
        } else {
            EditEffect::Quiet
        }
    }

    /// Steps forward one snapshot; at the newest this is a silent no-op.
    pub fn redo(&mut self) -> (effect: EditEffect)
        requires
            old(self).wf(),
        ensures
            final(self).wf(),
            *final(self) == (Edit { history: final(self).history, ..*old(self) }),
            final(self).history == crate::history::redo_spec(old(self).history),
            effect == if old(self).history.cursor < old(self).history.snapshots@.len() {
                EditEffect::Repaint
            } else {
                EditEffect::Quiet
            },
    {
        if self.history.redo() {
            EditEffect::Repaint
        } else {
            EditEffect::Quiet
        }
    }
}


/// The bytes of a cropped canvas are the bytes of the source region.
proof fn lemma_crop_bytes_match(src: Canvas, c2: Canvas, x: int, y: int)
    requires
        c2.wf(),
        1 <= c2.width,
        1 <= c2.height,
        forall|i: int, j: int|
            0 <= i < c2.width && 0 <= j < c2.height ==> c2.pix(i, j) == src.pix(x + i, y + j),
    ensures
        crate::canvas::rgba_bytes_of(c2) == crop_bytes(
            src,
            x,
            y,
            c2.width as int,
            c2.height as int,
        ),
{
    let w = c2.width as int;
    let h = c2.height as int;
    let a = crate::canvas::rgba_bytes_of(c2);
    let b = crop_bytes(src, x, y, w, h);
    crate::canvas::lemma_dims_product(w, h);
    assert(a.len() == 4 * (w * h));
    assert(b.len() == 4 * w * h);
    assert(4 * (w * h) == 4 * w * h) by (nonlinear_arith);
    assert forall|j: int| 0 <= j < a.len() implies a[j] == b[j] by {
        let t = j / 4;
        assert(0 <= t < w * h) by (nonlinear_arith)
            requires
                0 <= j < 4 * (w * h),
                t == j / 4,
        ;
        vstd::arithmetic::div_mod::lemma_fundamental_div_mod(t, w);
        vstd::arithmetic::div_mod::lemma_mod_bound(t, w);
        assert(t / w < h) by (nonlinear_arith)
            requires
                0 <= t < w * h,
                1 <= w,
                t == w * (t / w) + t % w,
                0 <= t % w < w,
        ;
        assert(c2.pix(t % w, t / w) == c2.pixels@[(t / w) * w + t % w]);
        assert((t / w) * w + t % w == t) by (nonlinear_arith)
            requires
                t == w * (t / w) + t % w,
        ;
        assert(c2.pixels@[t] == src.pix(x + t % w, y + t / w));
    }
    assert(a =~= b);
}

/// The editor state after one button press, and the effect it reports.
pub open spec fn select_transition(pre: Edit, btn: EditButton, post: Edit, eff: EditEffect) -> bool {
    match btn {
        EditButton::Second => {
            &&& eff == EditEffect::Repaint
            &&& if pre.adding_shapes {
                post == (Edit {
                    choosen_shape: 0,
                    resizing: 0,
                    selection: None,
                    ..pre
                })
            } else if pre.highlighting {
                post == (Edit {
                    drawing: true,
                    color: Rgba { r: 255, g: 165, b: 0, a: 128 },
                    stroke_width: 18,
                    color_variant: 1,
                    resizing: 0,
                    selection: None,
                    ..pre
                })
            } else if pre.pencil_selected {
                post == (Edit {
                    color: Rgba { r: 0, g: 0, b: 0, a: 255 },
                    stroke_width: 3,
                    color_variant: 1,
                    resizing: 0,
                    selection: None,
                    ..pre
                })
            } else {
                post == (Edit {
                    drawing: true,
                    pencil_selected: true,
                    color: Rgba { r: 0, g: 0, b: 0, a: 255 },
                    stroke_width: 3,
                    color_variant: 1,
                    resizing: 0,
                    selection: None,
                    ..pre
                })
            }
        },
        EditButton::Third => {
            &&& eff == EditEffect::Repaint
            &&& if pre.adding_shapes {
                post == (Edit {
                    choosen_shape: 1,
                    resizing: 0,
                    selection: None,
                    ..pre
                })
            } else if pre.highlighting {
                post == (Edit {
                    drawing: true,
                    color: Rgba { r: 255, g: 255, b: 0, a: 128 },
                    stroke_width: 18,
                    color_variant: 2,
                    resizing: 0,
                    selection: None,
                    ..pre
                })
            } else if pre.pencil_selected {
                post == (Edit {
                    color: Rgba { r: 0, g: 0, b: 0, a: 255 },
                    stroke_width: 6,
                    color_variant: 2,
                    resizing: 0,
                    selection: None,
                    ..pre
                })
            } else {
                post == (Edit {
                    drawing: true,
                    highlighting: true,
                    color: Rgba { r: 255, g: 165, b: 0, a: 128 },
                    stroke_width: 18,
                    color_variant: 1,
                    resizing: 0,
                    selection: None,
                    ..pre
                })
            }
        },
        EditButton::Fourth => {
            &&& eff == EditEffect::Repaint
            &&& if pre.adding_shapes {
                post == (Edit {
                    choosen_shape: 2,
                    resizing: 0,
                    selection: None,
                    ..pre
                })
            } else if pre.highlighting {
                post == (Edit {
                    drawing: true,
                    color: Rgba { r: 0, g: 255, b: 0, a: 128 },
                    stroke_width: 18,
                    color_variant: 3,
                    resizing: 0,
                    selection: None,
                    ..pre
                })
            } else if pre.pencil_selected {
                post == (Edit {
                    color: Rgba { r: 0, g: 0, b: 0, a: 255 },
                    stroke_width: 9,
                    color_variant: 3,
                    resizing: 0,
                    selection: None,
                    ..pre
                })
            } else {
                post == (Edit {
                    adding_shapes: true,
                    drawing: false,
                    resizing: 0,
                    selection: None,
                    ..pre
                })
            }
        },
        EditButton::First => {
            &&& eff == EditEffect::Repaint
            &&& if pre.adding_shapes || pre.highlighting || pre.pencil_selected {
                post == (Edit {
                    adding_shapes: false,
                    highlighting: false,
                    pencil_selected: false,
                    resizing: 1,
                    ..pre
                })
            } else {
                post == (Edit {
                    resizing: 1,
                    drawing: false,
                    disable_event: true,
                    ..pre
                })
            }
        },
        EditButton::Undo => {
            &&& post == (Edit { history: post.history, ..pre })
            &&& post.history == crate::history::undo_spec(pre.history)
            &&& eff == if pre.history.cursor > 1 {
                EditEffect::Repaint
            } else {
                EditEffect::Quiet
            }
        },
        EditButton::Redo => {
            &&& post == (Edit { history: post.history, ..pre })
            &&& post.history == crate::history::redo_spec(pre.history)
            &&& eff == if pre.history.cursor < pre.history.snapshots@.len() {
                EditEffect::Repaint
            } else {
                EditEffect::Quiet
            }
        },
        EditButton::Save => {
            &&& eff == EditEffect::SaveRequested
            &&& post == (Edit { resizing: 0, ..pre })
        },
        EditButton::ConfirmResize => {
            &&& eff == EditEffect::Repaint
            &&& post == (Edit {
                resizing: 1,
                selection: None,
                history: post.history,
                ..pre
            })
            &&& match pre.selection {
                None => post.history == pre.history,
                Some(sel) => {
                    let cur = pre.history.current_spec();
                    let cw = cur.width as int;
                    let ch = cur.height as int;
                    let sx = sel.x0 + pre.scaling.0;
                    let sy = sel.y0 + pre.scaling.1;
                    let px = if sx < 0 {
                        0
                    } else if sx > cw {
                        cw
                    } else {
                        sx
                    };
                    let py = if sy < 0 {
                        0
                    } else if sy > ch {
                        ch
                    } else {
                        sy
                    };
                    let w0 = if sel.x1 - sel.x0 < cw - px {
                        sel.x1 - sel.x0
                    } else {
                        cw - px
                    };
                    let h0 = if sel.y1 - sel.y0 < ch - py {
                        sel.y1 - sel.y0
                    } else {
                        ch - py
                    };
                    if 1 <= w0 && 1 <= h0 {
                        let nw = fit_width(
                            w0,
                            h0,
                            RESIZE_TARGET_W as int,
                            RESIZE_TARGET_H as int,
                        );
                        let nh = fit_height(
                            w0,
                            h0,
                            RESIZE_TARGET_W as int,
                            RESIZE_TARGET_H as int,
                        );
                        let newest = post.history.current_spec();
                        &&& post.history.cursor == post.history.snapshots@.len()
                        &&& pre.history.cursor == crate::history::HISTORY_CAPACITY
                            ==> post.history.snapshots@ == pre.history.snapshots@.subrange(
                            1,
                            crate::history::HISTORY_CAPACITY as int,
                        ).push(newest)
                        &&& pre.history.cursor < crate::history::HISTORY_CAPACITY
                            ==> post.history.snapshots@ == pre.history.snapshots@.subrange(
                            0,
                            pre.history.cursor as int,
                        ).push(newest) && post.history.cursor == pre.history.cursor + 1
                        &&& newest.width == nw
                        &&& newest.height == nh
                        &&& forall|i: int|
                            0 <= i < newest.pixels@.len()
                                ==> #[trigger] newest.pixels@[i] == rgba_at(
                                resample_of(crop_bytes(cur, px, py, w0, h0), w0, h0, nw,
                                nh),
                                i,
                            )
                    } else {
                        post.history == pre.history
                    }
                },
            }
        },
    }
}

impl Edit {
    /// Applies one press of an editor button.
    ///
    /// The leading icon leaves the active tool group (or arms the crop
    /// tool); the other three icons pick a shape, a pencil size, a
    /// highlighter color, or enter a tool group, each press arming the
    /// stated color and width. Undo and redo move through the history;
    /// confirm crops the canvas to the selection, rescales it to the fixed
    /// footprint and commits it; save asks the caller to export.
    #[verifier::rlimit(60)]
    pub fn select_button(&mut self, btn: EditButton) -> (effect: EditEffect)
        requires
            old(self).wf(),
        ensures
            final(self).wf(),
            select_transition(*old(self), btn, *final(self), effect),
    {
        match btn {
            EditButton::Second => {
                if self.adding_shapes {
                    self.choosen_shape = 0;
                } else if self.highlighting {
                    self.drawing = true;
                    self.color = Rgba { r: 255, g: 165, b: 0, a: 128 };
                    self.stroke_width = 18;
                    self.color_variant = 1;
                } else if self.pencil_selected {
                    self.color = Rgba { r: 0, g: 0, b: 0, a: 255 };
                    self.stroke_width = 3;
                    self.color_variant = 1;
                } else {
                    self.drawing = true;
                    self.pencil_selected = true;
                    self.color = Rgba { r: 0, g: 0, b: 0, a: 255 };
                    self.stroke_width = 3;
                    self.color_variant = 1;
                }
                self.resizing = 0;
                self.selection = None;
                EditEffect::Repaint
            },
            EditButton::Third => {
                if self.adding_shapes {
                    self.choosen_shape = 1;
                } else if self.highlighting {
                    self.drawing = true;
                    self.color = Rgba { r: 255, g: 255, b: 0, a: 128 };
                    self.stroke_width = 18;
                    self.color_variant = 2;
                } else if self.pencil_selected {
                    self.color = Rgba { r: 0, g: 0, b: 0, a: 255 };
                    self.stroke_width = 6;
                    self.color_variant = 2;
                } else {
                    self.drawing = true;
                    self.highlighting = true;
                    self.color = Rgba { r: 255, g: 165, b: 0, a: 128 };
                    self.stroke_width = 18;
                    self.color_variant = 1;
                }
                self.resizing = 0;
                self.selection = None;
                EditEffect::Repaint
            },
            EditButton::Fourth => {
                if self.adding_shapes {
                    self.choosen_shape = 2;
                } else if self.highlighting {
                    self.drawing = true;
                    self.color = Rgba { r: 0, g: 255, b: 0, a: 128 };
                    self.stroke_width = 18;
                    self.color_variant = 3;
                } else if self.pencil_selected {
                    self.color = Rgba { r: 0, g: 0, b: 0, a: 255 };
                    self.stroke_width = 9;
                    self.color_variant = 3;
                } else {
                    self.adding_shapes = true;
                    self.drawing = false;
                }
                self.resizing = 0;
                self.selection = None;
                EditEffect::Repaint
            },
            EditButton::First => {
                if self.adding_shapes || self.highlighting || self.pencil_selected {
                    self.adding_shapes = false;
                    self.highlighting = false;
                    self.pencil_selected = false;
                    self.resizing = 1;
                } else {
                    self.resizing = 1;
                    self.drawing = false;
                    self.disable_event = true;
                }
                EditEffect::Repaint
            },
            EditButton::Undo => self.undo(),
            EditButton::Redo => self.redo(),
            EditButton::Save => {
                self.resizing = 0;
                EditEffect::SaveRequested
            },
            EditButton::ConfirmResize => {
                if let Some(sel) = self.selection {
                    let cw = self.history.current().width as i64;
                    let ch = self.history.current().height as i64;
                    let sx = sel.x0 + self.scaling.0;
                    let sy = sel.y0 + self.scaling.1;
                    let px: i64 = if sx < 0 {
                        0
                    } else if sx > cw {
                        cw
                    } else {
                        sx
                    };
                    let py: i64 = if sy < 0 {
                        0
                    } else if sy > ch {
                        ch
                    } else {
                        sy
                    };
                    let sel_w = sel.x1 - sel.x0;
                    let sel_h = sel.y1 - sel.y0;
                    let w0: i64 = if sel_w < cw - px {
                        sel_w
                    } else {
                        cw - px
                    };
                    let h0: i64 = if sel_h < ch - py {
                        sel_h
                    } else {
                        ch - py
                    };
                    if w0 >= 1 && h0 >= 1 {
                        let cropped = self.history.current().crop(
                            px as u32,
                            py as u32,
                            w0 as u32,
                            h0 as u32,
                        );
                        proof {
                            lemma_crop_bytes_match(
                                old(self).history.current_spec(),
                                cropped,
                                px as int,
                                py as int,
                            );
                        }
                        let resized = cropped.resize_to_fit(RESIZE_TARGET_W, RESIZE_TARGET_H);
                        self.history.commit(resized);
                    }
                }
                self.resizing = 1;
                self.selection = None;
                EditEffect::Repaint
            },
        }
    }
}


/// The editor state after a press lands on the canvas area: the press
/// anchors a gesture — a stroke start in drawing mode, a restart of the
/// crop selection when one was already confirmed, or just the anchor in
/// shape mode; a press outside the canvas changes nothing.
pub open spec fn anchor_transition(pre: Edit, pos: Point, post: Edit) -> bool {
    match pre.dest_rect {
        Some(dest) => if dest.x0 <= pos.x <= dest.x1 && dest.y0 <= pos.y <= dest.y1 {
            if pre.adding_shapes {
                post == (Edit { initial_point: Some(pos), active: true, ..pre })
            } else if pre.resizing == 0 {
                &&& post == (Edit {
                    initial_point: Some(pos),
                    active: true,
                    drawing: true,
                    movement_points: post.movement_points,
                    ..pre
                })
                &&& post.movement_points@ == pre.movement_points@.push(pos)
            } else if pre.resizing == 2 {
                post == (Edit {
                    initial_point: Some(pos),
                    active: true,
                    selection: None,
                    resizing: 1,
                    ..pre
                })
            } else {
                post == (Edit { initial_point: Some(pos), active: true, ..pre })
            }
        } else {
            post == pre
        },
        None => post == pre,
    }
}

/// The editor state after the pointer is released: an in-progress drawing
/// gesture blends its overlay over the canvas and commits the result
/// (when the overlay matches the canvas size), and a crop drag with a
/// live selection moves on to await confirmation.
pub open spec fn release_transition(pre: Edit, post: Edit, eff: EditEffect) -> bool {
    let commit_phase = pre.drawing || pre.adding_shapes;
    let committed = commit_phase && match pre.temp_edit {
        Some(t) => t.width == pre.history.current_spec().width && t.height
            == pre.history.current_spec().height,
        None => false,
    };
    let resize_confirm = pre.resizing == 1 && !pre.disable_event && pre.selection is Some;
    &&& post == (Edit {
        history: post.history,
        temp_edit: post.temp_edit,
        initial_point: post.initial_point,
        movement_points: post.movement_points,
        drawing: post.drawing,
        active: post.active,
        disable_event: post.disable_event,
        resizing: post.resizing,
        ..pre
    })
    &&& post.initial_point == if commit_phase || resize_confirm {
        None::<Point>
    } else {
        pre.initial_point
    }
    &&& post.movement_points@ == if commit_phase {
        Seq::<Point>::empty()
    } else {
        pre.movement_points@
    }
    &&& post.drawing == if commit_phase {
        false
    } else {
        pre.drawing
    }
    &&& post.active == if commit_phase {
        false
    } else {
        pre.active
    }
    &&& post.temp_edit == if commit_phase {
        None::<Canvas>
    } else {
        pre.temp_edit
    }
    &&& post.disable_event == if pre.resizing == 1 && pre.disable_event {
        false
    } else {
        pre.disable_event
    }
    &&& post.resizing == if resize_confirm {
        2u8
    } else {
        pre.resizing
    }
    &&& if committed {
        let cur = pre.history.current_spec();
        let t = pre.temp_edit.unwrap();
        let newest = post.history.current_spec();
        &&& post.history.cursor == post.history.snapshots@.len()
        &&& pre.history.cursor == crate::history::HISTORY_CAPACITY ==> post.history.snapshots@
            == pre.history.snapshots@.subrange(1, crate::history::HISTORY_CAPACITY as int).push(
            newest,
        )
        &&& pre.history.cursor < crate::history::HISTORY_CAPACITY ==> post.history.snapshots@
            == pre.history.snapshots@.subrange(0, pre.history.cursor as int).push(newest)
            && post.history.cursor == pre.history.cursor + 1
        &&& newest.width == cur.width
        &&& newest.height == cur.height
        &&& forall|i: int|
            0 <= i < newest.pixels@.len() ==> #[trigger] newest.pixels@[i] == blend_pixel(
                cur.pixels@[i],
                t.pixels@[i],
            )
    } else {
        post.history == pre.history
    }
    &&& eff == if committed || resize_confirm {
        EditEffect::Repaint
    } else {
        EditEffect::Quiet
    }
}

/// The editor state after the pointer moves: in shape mode the transient
/// overlay becomes the freshly rendered shape between the anchor and the
/// pointer; in drawing mode the point joins the path and, once the path
/// is long enough, the overlay becomes the rendered stroke; in crop mode
/// the selection re-spans between the anchor and the pointer, clamped to
/// the canvas area.
pub open spec fn move_transition(pre: Edit, pos: Point, post: Edit, eff: EditEffect) -> bool {
    if pre.active && pre.adding_shapes {
        match pre.initial_point {
            None => post == pre && eff == EditEffect::Quiet,
            Some(initial) => {
                let sinit = scaled_point(initial, pre.scaling);
                let spos = scaled_point(pos, pre.scaling);
                let cw = pre.history.current_spec().width;
                let ch = pre.history.current_spec().height;
                &&& post == (Edit { temp_edit: post.temp_edit, ..pre })
                &&& eff == EditEffect::Repaint
                &&& post.temp_edit matches Some(t) && t.wf() && t.width == cw && t.height == ch
                    && (forall|x: int, y: int|
                    0 <= x < cw && 0 <= y < ch ==> #[trigger] t.pix(x, y) == (if shape_covers(
                        pre.choosen_shape,
                        sinit,
                        spos,
                        x,
                        y,
                    ) {
                        Rgba { r: 0, g: 0, b: 0, a: 255 }
                    } else {
                        Rgba { r: 0, g: 0, b: 0, a: 0 }
                    }))
            },
        }
    } else if pre.active && pre.drawing {
        let pts = if pre.dest_rect is Some {
            pre.movement_points@.push(pos)
        } else {
            pre.movement_points@
        };
        &&& post == (Edit {
            temp_edit: post.temp_edit,
            movement_points: post.movement_points,
            ..pre
        })
        &&& post.movement_points@ == pts
        &&& if pts.len() > 2 {
            &&& eff == EditEffect::Repaint
            &&& post.temp_edit matches Some(t) && t.wf() && t.width
                == pre.history.current_spec().width && t.height
                == pre.history.current_spec().height && (forall|x: int, y: int|
                0 <= x < t.width && 0 <= y < t.height ==> #[trigger] t.pix(x, y) == (if covered(
                    stroke_positions(scaled_points(pts, pre.scaling)),
                    pre.stroke_width as int,
                    x,
                    y,
                ) {
                    pre.color
                } else {
                    Rgba { r: 0, g: 0, b: 0, a: 0 }
                }))
        } else {
            eff == EditEffect::Quiet && post.temp_edit == pre.temp_edit
        }
    } else if pre.resizing == 1 {
        match (pre.initial_point, pre.dest_rect) {
            (Some(initial), Some(dest)) => {
                let spanned = normalize_spec(
                    Rect { x0: initial.x, y0: initial.y, x1: pos.x, y1: pos.y },
                );
                &&& post == (Edit { selection: post.selection, ..pre })
                &&& post.selection == Some(
                    normalize_spec(crate::geometry::clamp_spec(spanned, dest)),
                )
                &&& eff == EditEffect::Repaint
            },
            _ => post == pre && eff == EditEffect::Quiet,
        }
    } else {
        post == pre && eff == EditEffect::Quiet
    }
}

/// Whether the transient shape overlay colors pixel `(x, y)`: the
/// midpoint circle through the pointer, the rectangle outline between the
/// two drag corners, or the triangle derived from the drag, all drawn
/// with the default shape stroke.
pub open spec fn shape_covers(shape: u8, sinit: Point, spos: Point, x: int, y: int) -> bool {
    if shape == 0 {
        let radius = sqrt_nat(
            (spos.x - sinit.x) * (spos.x - sinit.x) + (spos.y - sinit.y) * (spos.y - sinit.y),
        );
        covered(circle_positions(sinit.x as int, sinit.y as int, radius, 0, 0, 2), 1, x, y)
    } else if shape == 1 {
        in_rect_border(
            if sinit.x <= spos.x {
                sinit.x as int
            } else {
                spos.x as int
            },
            if sinit.y <= spos.y {
                sinit.y as int
            } else {
                spos.y as int
            },
            if sinit.x <= spos.x {
                spos.x as int
            } else {
                sinit.x as int
            },
            if sinit.y <= spos.y {
                spos.y as int
            } else {
                sinit.y as int
            },
            3,
            x,
            y,
        )
    } else {
        let v = triangle_vertices(sinit, spos);
        covered(line_stamps(v.0, v.1, 2), 2, x, y) || covered(line_stamps(v.1, v.2, 2), 2, x, y)
            || covered(line_stamps(v.2, v.0, 2), 2, x, y)
    }
}

impl Edit {
    /// Handles a pointer press: a hit on a button acts on it, and the
    /// press then anchors a gesture if it lands on the canvas area.
    pub fn mouse_down(&mut self, mouse_pos: Point, widget_width: i64) -> (effect: EditEffect)
        requires
            old(self).wf(),
            256 <= widget_width <= HALF_LIMIT,
            0 <= mouse_pos.x <= HALF_LIMIT,
            0 <= mouse_pos.y <= HALF_LIMIT,
        ensures
            final(self).wf(),
            match edit_clicked_spec(mouse_pos, widget_width as int, old(self).resizing) {
                None => anchor_transition(*old(self), mouse_pos, *final(self)) && effect
                    == EditEffect::Quiet,
                Some(b) => exists|mid: Edit|
                    #[trigger] select_transition(*old(self), b, mid, effect) && anchor_transition(
                        mid,
                        mouse_pos,
                        *final(self),
                    ),
            },
    {
        let btn = self.get_clicked_button(mouse_pos, widget_width);
        let mut effect = EditEffect::Quiet;
        if let Some(b) = btn {
            effect = self.select_button(b);
        }
        let ghost mid = *self;
        if let Some(dest) = self.dest_rect {
            if mouse_pos.is_inside_direct_rect(dest) {
                self.initial_point = Some(mouse_pos);
                if self.adding_shapes {
                } else if self.resizing == 0 {
                    self.drawing = true;
                    self.movement_points.push(mouse_pos);
                } else if self.resizing == 2 {
                    self.selection = None;
                    self.resizing = 1;
                }
                self.active = true;
            }
        }
        proof {
            assert(anchor_transition(mid, mouse_pos, *self));
        }
        effect
    }

    /// Handles a pointer release: commits an in-progress drawing gesture
    /// and advances the crop tool.
    pub fn mouse_up(&mut self) -> (effect: EditEffect)
        requires
            old(self).wf(),
        ensures
            final(self).wf(),
            release_transition(*old(self), *final(self), effect),
    {
        let mut effect = EditEffect::Quiet;
        if self.drawing || self.adding_shapes {
            let temp = self.temp_edit.take();
            if let Some(t) = temp {
                let committed: bool;
                {
                    let cur = self.history.current();
                    committed = t.width == cur.width && t.height == cur.height;
                }
                if committed {
                    let blended: Canvas;
                    {
                        let cur = self.history.current();
                        blended = Canvas::blend(cur, &t);
                    }
                    self.history.commit(blended);
                    effect = EditEffect::Repaint;
                }
            }
            self.initial_point = None;
            self.movement_points = Vec::new();
            self.drawing = false;
            self.active = false;
        }
        if self.resizing == 1 {
            if self.disable_event {
                self.disable_event = false;
            } else if self.selection.is_some() {
                self.resizing = 2;
                self.initial_point = None;
                effect = EditEffect::Repaint;
            }
        }
        effect
    }

    /// Handles a pointer move: renders the transient shape or stroke
    /// overlay, or re-spans the crop selection.
    pub fn mouse_move(&mut self, mouse_pos: Point) -> (effect: EditEffect)
        requires
            old(self).wf(),
            0 <= mouse_pos.x <= HALF_LIMIT,
            0 <= mouse_pos.y <= HALF_LIMIT,
        ensures
            final(self).wf(),
            move_transition(*old(self), mouse_pos, *final(self), effect),
    {
        if self.active && self.adding_shapes {
            if let Some(initial) = self.initial_point {
                let sinit = apply_scaling_to_point(self.scaling, initial);
                let spos = apply_scaling_to_point(self.scaling, mouse_pos);
                let strokes = Stroke::new_empty();
                let cw = self.history.current().width;
                let ch = self.history.current().height;
                let t = if self.choosen_shape == 0 {
                    let radius = crate::draw::calculate_radius(sinit, spos);
                    strokes.draw_circle(sinit, radius, (cw, ch))
                } else if self.choosen_shape == 1 {
                    strokes.draw_enlarging_rectangle(sinit, spos, (cw, ch))
                } else {
                    strokes.draw_enlarging_triangle(sinit, spos, (cw, ch))
                };
                self.temp_edit = Some(t);
                EditEffect::Repaint
            } else {
                EditEffect::Quiet
            }
        } else if self.active && self.drawing {
            if self.dest_rect.is_some() {
                self.movement_points.push(mouse_pos);
            }
            if self.movement_points.len() > 2 {
                let converted = apply_scaling(self.scaling, &self.movement_points);
                proof {
                    assert(converted@ =~= scaled_points(
                        self.movement_points@,
                        self.scaling,
                    ));
                }
                let strokes = Stroke::new(converted, self.color, self.stroke_width);
                let cw = self.history.current().width;
                let ch = self.history.current().height;
                let t = strokes.draw((cw, ch));
                self.temp_edit = Some(t);
                EditEffect::Repaint
            } else {
                EditEffect::Quiet
            }
        } else if self.resizing == 1 {
            if self.initial_point.is_some() && self.dest_rect.is_some() {
                let initial = self.initial_point.unwrap();
                let dest = self.dest_rect.unwrap();
                let spanned = Rect::from_points(initial, mouse_pos);
                let clamped = spanned.clamp_to(dest);
                self.selection = Some(clamped.normalize());
                EditEffect::Repaint
            } else {
                EditEffect::Quiet
            }
        } else {
            EditEffect::Quiet
        }
    }
}

} // verus!
