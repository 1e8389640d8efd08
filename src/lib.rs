//! Three-point touchscreen calibration.
//!
//! The library presents three fixed targets, collects the touch positions that
//! correspond to them, and solves exactly for the affine map from touch
//! coordinates to display coordinates. Coordinates are normalized to the
//! display and held in millionths, so the solve is exact integer arithmetic.

pub mod point;
pub mod affine;
pub mod render;
pub mod session;
pub mod text;
pub mod controller;
