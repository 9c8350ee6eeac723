//! A 2D Eulerian fluid simulation core with a glyph exporter and an analytic
//! field driver, written over fixed-point integer arithmetic so that every
//! step of the numerics is verified.
//!
//! Scalars are signed 64-bit integers scaled by [`fixed::SCALE`]: the stored
//! value `v` stands for the real number `v / SCALE`. All operations saturate
//! at [`fixed::FX_MAX`], so no field value ever overflows.

pub mod fixed;
pub mod fluid_model;
pub mod fluid_vec;
pub mod state;
pub mod vector;
