//! The region-selection overlay: a full-screen surface the user drags a
//! selection on, with confirm, cancel and back affordances.
//!
//! The overlay starts out selecting; a pointer press anchors the drag, the
//! pointer path spans the selection, and release shows the confirm and
//! cancel buttons, placed below the selection when there is room and above
//! it otherwise. Pressing confirm hands the selection and its monitor to
//! the capture planner; pressing the back affordance cancels the whole
//! session; pressing the broom clears the selection and starts over. Every
//! state change reports whether a repaint is due. While selecting, a
//! press that hits nothing anchors a new drag; while the affordances are
//! showing, such a press re-anchors only inside the selection and is
//! swallowed outside it.

use vstd::prelude::*;
use crate::geometry::{coord_ok, Point, Rect, COORD_LIMIT};
use crate::monitor::{all_wf, is_point_in_screen, locate, locate_from, min_x_upto,
    translation_factor, Monitor};

verus! {

/// Whether the user is still dragging or the affordances are showing.
#[derive(Clone, Copy, PartialEq, Eq, Structural, Debug)]
pub enum OverlayState {
    Selecting,
    ButtonsShown,
}

/// The affordances the overlay paints.
#[derive(Clone, Copy, PartialEq, Eq, Structural, Debug)]
pub enum OverlayButton {
    Save,
    Back,
    Cleanup,
}

/// A pointer event handed to the overlay.
#[derive(Clone, Copy, PartialEq, Eq, Structural, Debug)]
pub enum OverlayEvent {
    MouseDown(Point),
    MouseUp(Point),
    MouseMove(Point),
}

/// What an event led to: more interaction (with or without a repaint), a
/// confirmed capture, or cancellation of the whole session.
#[derive(Clone, Copy, PartialEq, Eq, Structural, Debug)]
pub enum OverlayOutcome {
    Pending { repaint: bool },
    Captured { selection: Rect, monitor_index: usize, translation: i64 },
    Cancelled,
}

/// The x position of the back affordance on a surface of the given width
/// over `count` monitors.
pub open spec fn back_origin_x(surface_width: int, count: int) -> int {
    surface_width / (2 * count) - 64
}

/// Whether `p` lies in the box at `(ox, oy)` of size `w * h`.
pub open spec fn hit_box(p: Point, ox: int, oy: int, w: int, h: int) -> bool {
    ox <= p.x <= ox + w && oy <= p.y <= oy + h
}

/// Where the confirm and cancel buttons sit for a selection on a monitor:
/// centered under the selection, 30 pixels below it when the monitor has
/// room for them, otherwise the same distance above it. Returns
/// `(left_x, left_y, right_x, right_y)`.
pub open spec fn button_positions(m: Monitor, sel: Rect) -> (int, int, int, int) {
    let center_x = (sel.x0 + sel.x1) / 2;
    let space_below = m.height - sel.y1;
    let vertical = if space_below >= 32 + 30 {
        sel.y1 + 30
    } else {
        sel.y0 - 32 - 30
    };
    (center_x - 32 - 30, vertical, center_x + 30, vertical)
}

/// Which affordance a press at `p` hits: with a selection on a monitor the
/// confirm and cancel buttons are live, and the back affordance is always
/// live; anything else hits nothing.
pub open spec fn clicked_button_spec(
    p: Point,
    sel: Option<Rect>,
    screen: Option<Monitor>,
    surface_width: int,
    count: int,
) -> Option<OverlayButton> {
    let bx = back_origin_x(surface_width, count);
    match screen {
        Some(m) => match sel {
            Some(r) => {
                let pos = button_positions(m, r);
                if hit_box(p, pos.0, pos.1, 32, 32) {
                    Some(OverlayButton::Save)
                } else if hit_box(p, pos.2, pos.3, 32, 32) {
                    Some(OverlayButton::Cleanup)
                } else if hit_box(p, bx, 20, 64, 64) {
                    Some(OverlayButton::Back)
                } else {
                    None
                }
            },
            None => if hit_box(p, bx, 20, 64, 64) {
                Some(OverlayButton::Back)
            } else {
                None
            },
        },
        None => if hit_box(p, bx, 20, 64, 64) {
            Some(OverlayButton::Back)
        } else {
            None
        },
    }
}

/// A well-formed selection rectangle in overlay surface coordinates:
/// normalized and non-negative.
pub open spec fn sel_wf(sel: Option<Rect>) -> bool {
    match sel {
        Some(r) => r.wf() && r.is_normalized() && 0 <= r.x0 && 0 <= r.y0,
        None => true,
    }
}

/// Computes where the confirm and cancel buttons sit for a selection.
pub fn get_button_position(m: &Monitor, sel: &Rect) -> (r: (i64, i64, i64, i64))
    requires
        m.wf(),
        sel.wf(),
        sel.is_normalized(),
        0 <= sel.x0,
        0 <= sel.y0,
    ensures
        (r.0 as int, r.1 as int, r.2 as int, r.3 as int) == button_positions(*m, *sel),
{
    let center_x = (sel.x0 + sel.x1) / 2;
    let space_below = m.height as i64 - sel.y1;
    let vertical = if space_below >= 32 + 30 {
        sel.y1 + 30
    } else {
        sel.y0 - 32 - 30
    };
    (center_x - 32 - 30, vertical, center_x + 30, vertical)
}

/// Computes which affordance a press hits.
pub fn get_clicked_button(
    p: Point,
    sel: &Option<Rect>,
    screen: &Option<usize>,
    monitors: &Vec<Monitor>,
    surface_width: i64,
) -> (r: Option<OverlayButton>)
    requires
        p.wf(),
        sel_wf(*sel),
        all_wf(monitors@),
        1 <= monitors@.len() <= COORD_LIMIT,
        screen matches Some(i) ==> i < monitors@.len(),
        0 <= surface_width <= 16 * (COORD_LIMIT as int),
    ensures
        r == clicked_button_spec(
            p,
            *sel,
            match *screen {
                Some(i) => Some(monitors@[i as int]),
                None => None,
            },
            surface_width as int,
            monitors@.len() as int,
        ),
{
    let count = monitors.len() as i64;
    let bx = surface_width / (2 * count) - 64;
    let back_hit = p.x >= bx && p.x <= bx + 64 && p.y >= 20 && p.y <= 20 + 64;
    match screen {
        Some(i) => {
            let m = monitors[*i];
            match sel {
                Some(r) => {
                    let pos = get_button_position(&m, r);
                    if p.x >= pos.0 && p.x <= pos.0 + 32 && p.y >= pos.1 && p.y <= pos.1 + 32 {
                        Some(OverlayButton::Save)
                    } else if p.x >= pos.2 && p.x <= pos.2 + 32 && p.y >= pos.3 && p.y <= pos.3
                        + 32 {
                        Some(OverlayButton::Cleanup)
                    } else if back_hit {
                        Some(OverlayButton::Back)
                    } else {
                        None
                    }
                },
                None => if back_hit {
                    Some(OverlayButton::Back)
                } else {
                    None
                },
            }
        },
        None => if back_hit {
            Some(OverlayButton::Back)
        } else {
            None
        },
    }
}

/// The drag state of the selection overlay.
pub struct ScreenshotOverlay {
    pub start_point: Option<Point>,
    pub end_point: Option<Point>,
    pub screen: Option<usize>,
    pub overlay_state: OverlayState,
    pub active: bool,
}

impl ScreenshotOverlay {
    /// A fresh overlay, selecting, with nothing anchored yet.
    pub fn new() -> (s: ScreenshotOverlay)
        ensures
            s.start_point is None,
            s.end_point is None,
            s.screen is None,
            s.overlay_state == OverlayState::Selecting,
            !s.active,
    {
        ScreenshotOverlay {
            start_point: None,
            end_point: None,
            screen: None,
            overlay_state: OverlayState::Selecting,
            active: false,
        }
    }

    /// Remembers which monitor the interaction is on.
    pub fn set_screen(&mut self, screen: usize)
        ensures
            *final(self) == (ScreenshotOverlay { screen: Some(screen), ..*old(self) }),
    {
        self.screen = Some(screen);
    }

    /// Whether the point, translated back, lies on the monitor's
    /// horizontal extent; vertical bounds are intentionally ignored.
    pub fn is_point_in_screen(&self, point: Point, screen: &Monitor, translation_factor: i64) -> (r:
        bool)
        requires
            point.wf(),
            screen.wf(),
            coord_ok(translation_factor as int),
        ensures
            r == screen.contains_x(point.x as int, translation_factor as int),
    {
        is_point_in_screen(point, screen, translation_factor)
    }

    /// The window size the overlay asks for: the surface, plus a strip for
    /// the buttons once they are showing.
    pub fn layout_size(&self, width: i64, height: i64) -> (r: (i64, i64))
        requires
            0 <= width <= 16 * (COORD_LIMIT as int),
            0 <= height <= 16 * (COORD_LIMIT as int),
        ensures
            r.0 == width,
            r.1 == if self.overlay_state is ButtonsShown {
                height + 34
            } else {
                height as int
            },
    {
        if matches!(self.overlay_state, OverlayState::ButtonsShown) {
            (width, height + 34)
        } else {
            (width, height)
        }
    }

    /// Feeds one pointer event through the selection state machine.
    ///
    /// A press first attributes the point to the monitor whose extent,
    /// shifted left by the least monitor offset, contains it; a point no
    /// monitor contains stays unassigned and no capture is attributed to
    /// it. The press then either hits an affordance — confirm hands the
    /// selection off, back cancels the session, the broom clears the
    /// selection — or anchors a new drag; while the affordances are
    /// showing, a press that hits nothing and lies outside the selection
    /// is swallowed with no state change. A move while dragging re-spans
    /// the selection between the anchor and the pointer. A release ends
    /// the drag and, if a selection exists, shows the affordances.
    pub fn event(
        &mut self,
        event: OverlayEvent,
        selection: &mut Option<Rect>,
        monitors: &Vec<Monitor>,
        surface_width: i64,
    ) -> (outcome: OverlayOutcome)
        requires
            all_wf(monitors@),
            1 <= monitors@.len() <= COORD_LIMIT,
            sel_wf(*old(selection)),
            old(self).screen matches Some(i) ==> i < monitors@.len(),
            0 <= surface_width <= 16 * (COORD_LIMIT as int),
            event matches OverlayEvent::MouseDown(p) ==> p.wf() && 0 <= p.x && 0 <= p.y,
            event matches OverlayEvent::MouseUp(p) ==> p.wf() && 0 <= p.x && 0 <= p.y,
            event matches OverlayEvent::MouseMove(p) ==> p.wf() && 0 <= p.x && 0 <= p.y,
            old(self).start_point matches Some(p) ==> p.wf() && 0 <= p.x && 0 <= p.y,
        ensures
            final(self).screen matches Some(i) ==> i < monitors@.len(),
            sel_wf(*final(selection)),
            match event {
                OverlayEvent::MouseDown(p) => {
                    let t = min_x_upto(monitors@, monitors@.len() as int);
                    let ta = -t;
                    let loc = locate_from(p.x as int, monitors@, ta, 0);
                    let scr: Option<usize> = match loc {
                        Some(i) => Some(i as usize),
                        None => None,
                    };
                    let scr_m: Option<Monitor> = match scr {
                        Some(i) => Some(monitors@[i as int]),
                        None => None,
                    };
                    let btn = clicked_button_spec(
                        p,
                        *old(selection),
                        scr_m,
                        surface_width as int,
                        monitors@.len() as int,
                    );
                    let swallowed = btn is None && old(self).overlay_state is ButtonsShown
                        && match *old(selection) {
                        Some(r) => !(r.x0 <= p.x <= r.x1 && r.y0 <= p.y <= r.y1),
                        None => false,
                    };
                    if swallowed {
                        &&& *final(self) == *old(self)
                        &&& *final(selection) == *old(selection)
                        &&& outcome == (OverlayOutcome::Pending { repaint: false })
                    } else {
                        &&& final(self).screen == scr
                        &&& final(self).active
                        &&& match btn {
                        None => {
                            &&& final(self).start_point == Some(p)
                            &&& final(self).end_point == old(self).end_point
                            &&& final(self).overlay_state == old(self).overlay_state
                            &&& *final(selection) == *old(selection)
                            &&& outcome == (OverlayOutcome::Pending { repaint: false })
                        },
                        Some(OverlayButton::Save) => {
                            &&& final(self).start_point == old(self).start_point
                            &&& *final(selection) == *old(selection)
                            &&& match (scr, *old(selection)) {
                                (Some(i), Some(r)) => outcome == (OverlayOutcome::Captured {
                                    selection: r,
                                    monitor_index: i,
                                    translation: t as i64,
                                }),
                                _ => outcome == (OverlayOutcome::Pending { repaint: false }),
                            }
                        },
                        Some(OverlayButton::Back) => {
                            &&& final(self).start_point == old(self).start_point
                            &&& *final(selection) == *old(selection)
                            &&& if scr is Some {
                                outcome == OverlayOutcome::Cancelled
                            } else {
                                outcome == (OverlayOutcome::Pending { repaint: false })
                            }
                        },
                        Some(OverlayButton::Cleanup) => {
                            &&& final(self).start_point is None
                            &&& final(self).end_point is None
                            &&& final(self).overlay_state == OverlayState::Selecting
                            &&& *final(selection) is None
                            &&& outcome == (OverlayOutcome::Pending { repaint: true })
                        },
                        }
                    }
                },
                OverlayEvent::MouseUp(p) => {
                    &&& final(self).end_point == Some(p)
                    &&& !final(self).active
                    &&& final(self).start_point == old(self).start_point
                    &&& final(self).screen == old(self).screen
                    &&& *final(selection) == *old(selection)
                    &&& final(self).overlay_state == if *old(selection) is Some {
                        OverlayState::ButtonsShown
                    } else {
                        old(self).overlay_state
                    }
                    &&& outcome == (OverlayOutcome::Pending { repaint: true })
                },
                OverlayEvent::MouseMove(p) => {
                    &&& final(self).screen == old(self).screen
                    &&& final(self).overlay_state == old(self).overlay_state
                    &&& final(self).start_point == old(self).start_point
                    &&& final(self).active == old(self).active
                    &&& if old(self).active && old(self).start_point is Some {
                        &&& final(self).end_point == Some(p)
                        &&& *final(selection) == Some(
                            crate::geometry::normalize_spec(
                                Rect {
                                    x0: old(self).start_point.unwrap().x,
                                    y0: old(self).start_point.unwrap().y,
                                    x1: p.x,
                                    y1: p.y,
                                },
                            ),
                        )
                        &&& outcome == (OverlayOutcome::Pending { repaint: true })
                    } else {
                        &&& final(self).end_point == old(self).end_point
                        &&& *final(selection) == *old(selection)
                        &&& outcome == (OverlayOutcome::Pending { repaint: false })
                    }
                },
            },
    {
        match event {
            OverlayEvent::MouseDown(p) => {
                let t = translation_factor(monitors);
                let ta: i64 = -t;
                let located = locate(p, monitors, ta);
                let btn = get_clicked_button(p, selection, &located, monitors, surface_width);
                match btn {
                    None => {
                        let outside = match selection {
                            Some(r) => !p.is_inside_direct_rect(*r),
                            None => false,
                        };
                        if matches!(self.overlay_state, OverlayState::ButtonsShown) && outside {
                            return OverlayOutcome::Pending { repaint: false };
                        }
                        self.screen = located;
                        self.active = true;
                        self.start_point = Some(p);
                        OverlayOutcome::Pending { repaint: false }
                    },
                    Some(OverlayButton::Save) => {
                        self.screen = located;
                        self.active = true;
                        match (self.screen, *selection) {
                            (Some(i), Some(r)) => OverlayOutcome::Captured {
                                selection: r,
                                monitor_index: i,
                                translation: t,
                            },
                            _ => OverlayOutcome::Pending { repaint: false },
                        }
                    },
                    Some(OverlayButton::Back) => {
                        self.screen = located;
                        self.active = true;
                        if self.screen.is_some() {
                            OverlayOutcome::Cancelled
                        } else {
                            OverlayOutcome::Pending { repaint: false }
                        }
                    },
                    Some(OverlayButton::Cleanup) => {
                        self.screen = located;
                        self.active = true;
                        *selection = None;
                        self.start_point = None;
                        self.end_point = None;
                        self.overlay_state = OverlayState::Selecting;
                        OverlayOutcome::Pending { repaint: true }
                    },
                }
            },
            OverlayEvent::MouseUp(p) => {
                self.end_point = Some(p);
                self.active = false;
                if selection.is_some() {
                    self.overlay_state = OverlayState::ButtonsShown;
                }
                OverlayOutcome::Pending { repaint: true }
            },
            OverlayEvent::MouseMove(p) => {
                if self.active && self.start_point.is_some() {
                    let start = self.start_point.unwrap();
                    self.end_point = Some(p);
                    let r = Rect::from_points(start, p);
                    *selection = Some(r);
                    OverlayOutcome::Pending { repaint: true }
                } else {
                    OverlayOutcome::Pending { repaint: false }
                }
            },
        }
    }
}

} // verus!
