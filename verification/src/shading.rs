//! The two stages of the shading pipeline, for callers to implement.
//!
//! Both stages are pure: what a stage returns is a function of its arguments,
//! named by its `shade_spec`.
use crate::linalg::{Linear, Vec2};
use crate::scalar::Scalar;
use crate::types::{ColorType, InternalColorType};
use std::marker::PhantomData;
use vstd::prelude::*;

verus! {

/// What the vertex stage makes of one vertex: where it lies on the canvas,
/// and the value to interpolate across the triangle.
pub struct VertexOut<T: Linear> {
    pub coord: Vec2,
    pub varying: T,
}

impl<T: Linear> VertexOut<T> {
    pub fn new(coord: Vec2, varying: T) -> (out: Self)
        ensures
            out.coord == coord,
            out.varying == varying,
    {
        VertexOut { coord, varying }
    }
}

/// What the fragment stage makes of one pixel: its color and its depth.
pub struct FragOut<InternalType: InternalColorType, ExternalType: ColorType<InternalType>> {
    pub color: ExternalType,
    pub depth: Scalar,
    pub phantom_data: PhantomData<InternalType>,
}

impl<InternalType: InternalColorType, ExternalType: ColorType<InternalType>> FragOut<
    InternalType,
    ExternalType,
> {
    pub fn new(color: ExternalType, depth: Scalar) -> (out: Self)
        ensures
            out.color == color,
            out.depth == depth,
    {
        FragOut { color, depth, phantom_data: PhantomData }
    }
}

/// The vertex stage: from a vertex's attributes to its place and its varying
/// value.
pub trait VertexShader {
    type Attribute: Sync;

    type Uniform: Sync;

    type Out: Linear + Send + Sync;

    /// The uniforms that the stage can work with: all of them, unless the
    /// stage says otherwise.
    open spec fn accepts(uniform: &Self::Uniform) -> bool {
        true
    }

    spec fn shade_spec(vert: &Self::Attribute, uniform: &Self::Uniform) -> VertexOut<Self::Out>;

    fn shade(vert: &Self::Attribute, uniform: &Self::Uniform) -> (out: VertexOut<Self::Out>)
        requires
            Self::accepts(uniform),
        ensures
            out == Self::shade_spec(vert, uniform),
    ;
}

/// The fragment stage: from an interpolated varying value to a color and a
/// depth.
pub trait FragmentShader {
    type Uniform: Sync;

    type In: Linear + Send + Sync;

    type InternalType: InternalColorType;

    type ExternalType: ColorType<Self::InternalType>;

    /// The uniforms that the stage can work with: all of them, unless the
    /// stage says otherwise.
    open spec fn accepts(uniform: &Self::Uniform) -> bool {
        true
    }

    spec fn shade_spec(attribute: &Self::In, uniform: &Self::Uniform) -> FragOut<
        Self::InternalType,
        Self::ExternalType,
    >;

    fn shade(attribute: &Self::In, uniform: &Self::Uniform) -> (out: FragOut<
        Self::InternalType,
        Self::ExternalType,
    >)
        requires
            Self::accepts(uniform),
        ensures
            out == Self::shade_spec(attribute, uniform),
    ;
}

} // verus!
