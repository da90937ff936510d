//! Core of an interactive 2D drawing surface: exact coordinate-space math,
//! dirty-flagged parameter blocks, a capacity-bounded point buffer, the
//! byte layout handed to the GPU kernels, a CPU flood fill, and the
//! shape-editing interaction state machine.

pub mod fill;
pub mod helpers;
pub mod layout;
pub mod machine;
pub mod params;
pub mod points;
pub mod render;
pub mod transform;

pub use helpers::{Action, Position, Rgba, Size};
pub use machine::{GpuOp, InteractionState, Machine};
pub use points::{Point, PointBuffer};
pub use render::{CopyDirection, Error};
pub use transform::Frac;
