//! A software 3D rasterization pipeline over exact fixed-point arithmetic.
//!
//! Vertices carry object-space data; a model transform and perspective divide
//! map them to screen space, triangles are scanned over their bounding box
//! with a barycentric coverage test, and the resulting fragments are
//! composited into a color buffer under a nearest-wins depth rule.
//!
//! All coordinates, colors and depths are `Fx` fixed-point values, so every
//! stage has an exact, fully determined contract.

pub mod color;
pub mod fixed;
pub mod fragment;
pub mod framebuffer;
pub mod model;
pub mod pipeline;
pub mod raster;
pub mod transform;
pub mod vertex;
