//! Sampling a canvas as a texture.
//!
//! Sampling addresses the canvas in the texture convention: 0 is the center
//! of the first pixel along an axis and 1 the center of the last, so that the
//! coordinate `uv` lies at `uv * (n - 1)` pixels from the first center.
use crate::canvas::BezierCanvas;
use crate::linalg::{Vec2, Vec4};
use crate::scalar::{Scalar, ONE_RAW};
use crate::types::{ColorType, InternalColorType};
use vstd::prelude::*;

verus! {

/// A way to reconstruct a color between pixel centers.
pub trait SampleFilter<InternalType: InternalColorType, ExternalType: ColorType<InternalType>> {
    spec fn sample_spec(uv: Vec2, texture: &BezierCanvas<InternalType, ExternalType>) -> Vec4;

    /// The normalized color of a texture with at least one pixel, at a
    /// coordinate within the unit square.
    fn sample(uv: Vec2, texture: &BezierCanvas<InternalType, ExternalType>) -> (c: Vec4)
        requires
            texture.wf(),
            texture.width() > 0,
            texture.height() > 0,
            0 <= uv@[0].raw <= ONE_RAW,
            0 <= uv@[1].raw <= ONE_RAW,
        ensures
            c == Self::sample_spec(uv, texture),
    ;
}

/// The color of the nearest pixel.
pub struct NearestFilter {}

/// The four surrounding pixels, weighted by distance.
pub struct LinearFilter {}

/// The four surrounding pixels, weighted by the smooth step
/// `3 t^2 - 2 t^3` of the distance.
pub struct CubicFilter {}

/// A way to bring a coordinate into the unit interval.
pub trait Wrapping {
    spec fn wrap_spec(x: Scalar) -> Scalar;

    fn wrap(x: Scalar) -> (r: Scalar)
        ensures
            r == Self::wrap_spec(x),
            0 <= r.raw <= ONE_RAW,
    ;
}

/// The texture repeats: `x - floor(x)`.
pub struct WrapRepeat {}

/// The texture's edge goes on: `x` brought into `[0, 1]`.
pub struct WrapClampToEdge {}

/// [`WrapRepeat`], by its short name.
pub type Repeat = WrapRepeat;

/// [`WrapClampToEdge`], by its short name.
pub type ClampToEdge = WrapClampToEdge;

} // verus!
