//! Adaptive flattening of cubic Bezier curves into polylines.
//!
//! The library converts a cubic Bezier curve into a sequence of "line to
//! point" events whose polyline stays within a caller-supplied deviation
//! tolerance of the true curve. Coordinates and the tolerance are fixed-point
//! values: the caller picks a scale (say, a thousand units per logical unit)
//! and supplies integer coordinates at that scale, which keeps every step of
//! the flatness arithmetic exact.

pub mod flatten;
pub mod geom;

pub use flatten::{
    colinear_monotone, cubic_is_a_point, cubic_is_flat, flatten_cubic, flatten_events,
    is_flat_spec, is_point_spec, lemma_colinear_single_segment,
};
pub use geom::{CubicBez, Point, MAX_COORD};
