//! Top-down map renderer: extracts yaw from 3D rotation matrices, projects
//! world-space footprints into pixel space, and rasterizes oriented quads
//! into an RGBA canvas with alpha compositing. All geometry is carried in
//! fixed-point integer arithmetic so that every step has an exact contract.

pub mod cli;
pub mod compositor;
pub mod fixed;
pub mod project;
pub mod raster;
pub mod rotation;
pub mod scene;
pub mod trig;
