//! Detection planning for extracting rectangular photos from scanned sheets.
//!
//! The library holds the decision logic of the pipeline: corner ordering,
//! bounding boxes and overlap resolution, candidate filtering, warp-target
//! geometry, and parameter normalization. Image transforms themselves
//! (blur, thresholding, edge detection, contour tracing, perspective warps)
//! are the vision library's work and stay outside; this crate plans them
//! on plain integer coordinates.

pub mod candidates;
pub mod corner_laws;
pub mod files;
pub mod geometry;
pub mod isqrt;
pub mod overlap;
pub mod params;
pub mod pipeline;
pub mod warp;
