//! A procedurally animated three-body scene (star, planet, moon) rendered
//! into a per-pixel colour/depth grid through an angular perspective camera.
//!
//! All geometry is fixed-point: a scalar is an `i64` counting 1/65536 units,
//! so `1.0` is represented by `fixed::SCALE`. The host loop supplies the
//! output-surface size and a time parameter and paints the finished grid.

pub mod fixed;
pub mod camera;
pub mod framebuffer;
pub mod renderer;
pub mod sampler;
pub mod scene;
pub mod vector;
