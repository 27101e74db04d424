//! A software rasterizer over fixed-point numbers: a canvas of packed pixels,
//! primitives that draw into it through one blending gate, a shading pipeline
//! with a depth test, and sampling of a canvas as a texture.
pub mod scalar;
pub mod linalg;
pub mod scaling;
pub mod types;
pub mod shading;
pub mod texture;
pub mod canvas;
pub mod convert;
