//! A recursive ray tracer over exact fixed-point arithmetic.
//!
//! Every real quantity (coordinates, colors, material constants, ray
//! parameters) is a [`fx::Fx`]: a signed 64-bit count of 1/65536 units.
//! All geometry and shading is computed and verified over that exact
//! representation.

pub mod fx;
pub mod intersect;
pub mod laws;
pub mod mat3;
pub mod render;
pub mod scene;
pub mod shapes;
pub mod vec3;
