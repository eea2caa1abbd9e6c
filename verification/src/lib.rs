//! Core of a multi-monitor screenshot and annotation tool.
//!
//! The library models the selection-to-image pipeline: the geometry of a
//! drag-to-select overlay, the monitor layout of a virtual desktop, the
//! planning and stitching of captures that span several monitors, and an
//! in-memory raster editor with strokes, shapes, alpha blending and a
//! bounded undo/redo history. Everything here is pure computation over
//! plain values; device capture, dialogs and the clipboard live outside.

pub mod canvas;
pub mod capture;
pub mod config;
pub mod draw;
pub mod edit;
pub mod geometry;
pub mod history;
pub mod monitor;
pub mod overlay;
