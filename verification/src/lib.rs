//! A 2D game framework core: a retained-mode UI toolkit with a verified
//! flexbox-style layout solver, widget composition, event dispatch,
//! cursor aggregation, and hashing-based change detection.
//!
//! Geometry is measured in whole pixels. The GPU backend, windowing and
//! float-valued transform math live outside this crate; the library only
//! states the contracts a renderer must implement to draw each widget.

pub mod graphics;
pub mod input;
pub mod load;
pub mod ui;
