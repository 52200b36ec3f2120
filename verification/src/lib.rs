//! The discrete core of a Monte-Carlo path tracer: which surface a ray meets
//! first, what the radiance estimator does at a surface, and how the pixels of
//! the image map to primary rays.

pub mod camera;
pub mod geometry;
pub mod materials;
pub mod nearest;
pub mod objects;
pub mod pixels;
pub mod scalar;
pub mod shape;
