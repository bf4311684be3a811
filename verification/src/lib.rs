//! Per-frame compaction of facial-tracking detection results.
//!
//! Given a detection result (landmark sets, expression classifications,
//! head-pose matrices), a capture timestamp and a component-selection
//! configuration, the library produces a minimal record suitable for
//! streaming: scalar measurements are quantized to fixed-point integers,
//! unselected components are omitted, and the record can be rendered as a
//! single-line textual form.
//!
//! Scalar measurements are carried as fixed-point integers in units of
//! `1 / MICRO` (see [`quant`]); the host layer converts between its native
//! floating-point values and this representation at the boundary.

pub mod compact;
pub mod encode;
pub mod model;
pub mod quant;
pub mod vocab;
