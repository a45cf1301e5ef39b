//! An engine-agnostic camera control core: given per-tick input deltas
//! and a set of declarative constraints, it computes a smoothed camera
//! transform every simulation tick.
//!
//! The moving parts, leaf first: [`input`] holds the delta buffer that
//! accumulates raw input and hands it out immediately or by exponential
//! decay; [`smooth`] is the frame-rate-independent smoothing law shared
//! by every controller; [`controller`], [`controller2d`] and
//! [`controller3d`] are the per-camera configuration records with their
//! anchor and view modes; [`tick`] and the two specialized modules
//! resolve one controller per tick into the transform the host writes
//! back. The host owns the scene graph, input devices, and the optional
//! ray-cast capability; it hands this core plain values and takes plain
//! values back.
//!
//! Scalars throughout the crate are signed fixed-point numbers: an `i64`
//! holding `value * SCALE`, with `SCALE = 2^16`. All geometry (vectors,
//! quaternions, transforms) is built from such scalars, so every
//! computation of the core is exact integer arithmetic with stated
//! rounding, and every contract pins the computed value.

pub mod controller;
pub mod controller2d;
pub mod controller3d;
pub mod fixed;
pub mod input;
pub mod quat;
pub mod smooth;
pub mod tick;
pub mod transform;
pub mod trig;
pub mod vec;
