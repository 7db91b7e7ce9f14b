//! Image-feature detection and matching: FAST-style corner detection,
//! BRIEF-style binary descriptors with ratio-test matching, and a
//! Gaussian scale-space pipeline (difference-of-Gaussians, extrema
//! detection, sub-pixel keypoint refinement).

pub mod corner;
pub mod descriptor;
pub mod extrema;
pub mod features;
pub mod matcher;
pub mod pyramid;
pub mod refine;
pub mod raster;
