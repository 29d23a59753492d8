//! A real-time-strategy camera rig in fixed-point arithmetic: zoom-to-height mapping,
//! tilt dynamics, box-constrained panning, exponential smoothing and pose composition.
pub mod fixed;
pub mod geometry;
pub mod camera;
pub mod pose;
pub mod controls;
