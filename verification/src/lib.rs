//! A small ray-tracing core over fixed-point arithmetic.
//!
//! Every quantity of the renderer (coordinates, colors, distances) is a
//! signed 64-bit integer holding a real value scaled by 2^16, so that the
//! whole pipeline (camera, intersection, shading, tone mapping) is exact
//! integer arithmetic with proved contracts.

pub mod fx;
pub mod vector;
pub mod ray;
pub mod camera;
pub mod plane;
pub mod sphere;
pub mod scene;
pub mod render;
pub mod material;
