//! The filters and wrapping modes, and sampling through them.
use crate::canvas::BezierCanvas;
use crate::linalg::{Vec2, Vec4};
use crate::scalar::{Scalar, ONE_RAW};
use crate::texture::{
    CubicFilter, LinearFilter, NearestFilter, SampleFilter, WrapClampToEdge, WrapRepeat, Wrapping,
};
use crate::types::{ColorType, InternalColorType};
use vstd::prelude::*;
use vstd::std_specs::ops::{AddSpec, MulSpec, SubSpec};

verus! {

broadcast use vstd::array::group_array_axioms;

/// The place of the coordinate `uv` among the `max` pixel centers along an
/// axis, counted in pixels from the first: `uv * (max - 1)`.
pub open spec fn uv_to_point_spec(uv: Scalar, max: usize) -> Scalar {
    uv.mul_spec(Scalar::from_index_spec((max - 1) as usize))
}

/// A coordinate within the unit interval lies between the first and the last
/// center.
pub proof fn lemma_uv_to_point_bound(uv: Scalar, max: usize)
    requires
        0 <= uv.raw <= ONE_RAW,
        max > 0,
    ensures
        uv_to_point_spec(uv, max).raw >= 0,
        uv_to_point_spec(uv, max).floor_index_spec() < max,
        uv_to_point_spec(uv, max).ceil_index_spec() < max,
        uv_to_point_spec(uv, max).round_index_spec() < max,
        uv_to_point_spec(uv, max).floor_index_spec() * 0x1_0000_0000 <= uv_to_point_spec(
            uv,
            max,
        ).raw,
{
    let m = Scalar::from_index_spec((max - 1) as usize).raw as int;
    assert(0 <= m <= (max - 1) * 0x1_0000_0000);
    let wide = uv.raw * m;
    assert(0 <= wide <= 0x1_0000_0000 * m) by (nonlinear_arith)
        requires
            0 <= uv.raw <= 0x1_0000_0000,
            0 <= m,
            wide == uv.raw * m,
    ;
    let q = wide / 0x1_0000_0000;
    assert(0 <= q <= m);
    let p = uv_to_point_spec(uv, max);
    assert(p.raw == q);
}

pub fn uv_to_point(uv: Scalar, max: usize) -> (p: Scalar)
    requires
        max > 0,
    ensures
        p == uv_to_point_spec(uv, max),
{
    uv * Scalar::from_index(max - 1)
}

/// The smooth step `3 t^2 - 2 t^3`, as `((-2 t) t) t + (3 t) t`.
pub open spec fn smooth_step_spec(t: Scalar) -> Scalar {
    Scalar { raw: -0x2_0000_0000i64 }.mul_spec(t).mul_spec(t).mul_spec(t).add_spec(
        Scalar { raw: 0x3_0000_0000 }.mul_spec(t).mul_spec(t),
    )
}

pub fn smooth_step(t: Scalar) -> (s: Scalar)
    ensures
        s == smooth_step_spec(t),
{
    Scalar::from_raw(-0x2_0000_0000) * t * t * t + Scalar::from_raw(0x3_0000_0000) * t * t
}

/// The four colors at the corners `(x0, y0)`, `(x1, y0)`, `(x0, y1)` and
/// `(x1, y1)`, mixed with the weights `t1` of `x1` and `u1` of `y1`.
pub open spec fn mix4_spec(
    c00: Vec4,
    c10: Vec4,
    c01: Vec4,
    c11: Vec4,
    t1: Scalar,
    u1: Scalar,
) -> Vec4 {
    let t0 = Scalar::one_spec().sub_spec(t1);
    let u0 = Scalar::one_spec().sub_spec(u1);
    c00.mul_spec(t0.mul_spec(u0)).add_spec(c10.mul_spec(t1.mul_spec(u0))).add_spec(
        c01.mul_spec(t0.mul_spec(u1)),
    ).add_spec(c11.mul_spec(t1.mul_spec(u1)))
}

pub fn mix4(c00: Vec4, c10: Vec4, c01: Vec4, c11: Vec4, t1: Scalar, u1: Scalar) -> (c: Vec4)
    ensures
        c == mix4_spec(c00, c10, c01, c11, t1, u1),
{
    let t0 = Scalar::one() - t1;
    let u0 = Scalar::one() - u1;
    c00 * (t0 * u0) + c10 * (t1 * u0) + c01 * (t0 * u1) + c11 * (t1 * u1)
}

/// How far `p` lies beyond the last pixel center at or before it.
pub open spec fn beyond_spec(p: Scalar) -> Scalar {
    p.sub_spec(Scalar::from_index_spec(p.floor_index_spec()))
}

impl<InternalType: InternalColorType, ExternalType: ColorType<InternalType>> BezierCanvas<
    InternalType,
    ExternalType,
> {
    /// The normalized color of pixel `(x, y)`.
    pub open spec fn texel(&self, x: int, y: int) -> Vec4 {
        self.pixel_at(x, y).to_vec4_spec()
    }

    /// The four pixels around `uv`, mixed with the weights that `weigh` makes
    /// of the distances beyond the first of them.
    pub open spec fn mix_around(&self, uv: Vec2, weigh: spec_fn(Scalar) -> Scalar) -> Vec4 {
        let x = uv_to_point_spec(uv@[0], self.width());
        let y = uv_to_point_spec(uv@[1], self.height());
        let x0 = x.floor_index_spec() as int;
        let x1 = x.ceil_index_spec() as int;
        let y0 = y.floor_index_spec() as int;
        let y1 = y.ceil_index_spec() as int;
        mix4_spec(
            self.texel(x0, y0),
            self.texel(x1, y0),
            self.texel(x0, y1),
            self.texel(x1, y1),
            weigh(beyond_spec(x)),
            weigh(beyond_spec(y)),
        )
    }

    /// The four pixels around `uv`, and how far `uv` lies beyond the first of
    /// them along each axis.
    fn around(&self, uv: Vec2) -> (out: (Vec4, Vec4, Vec4, Vec4, Scalar, Scalar))
        requires
            self.wf(),
            self.width() > 0,
            self.height() > 0,
            0 <= uv@[0].raw <= ONE_RAW,
            0 <= uv@[1].raw <= ONE_RAW,
        ensures
            ({
                let x = uv_to_point_spec(uv@[0], self.width());
                let y = uv_to_point_spec(uv@[1], self.height());
                let x0 = x.floor_index_spec() as int;
                let x1 = x.ceil_index_spec() as int;
                let y0 = y.floor_index_spec() as int;
                let y1 = y.ceil_index_spec() as int;
                &&& out.0 == self.texel(x0, y0)
                &&& out.1 == self.texel(x1, y0)
                &&& out.2 == self.texel(x0, y1)
                &&& out.3 == self.texel(x1, y1)
                &&& out.4 == beyond_spec(x)
                &&& out.5 == beyond_spec(y)
            }),
    {
        proof {
            lemma_uv_to_point_bound(uv@[0], self.width());
            lemma_uv_to_point_bound(uv@[1], self.height());
        }
        let x = uv_to_point(uv.x(), self.width());
        let x0 = x.floor_index();
        let x1 = x.ceil_index();
        let t = x - Scalar::from_index(x0);
        let y = uv_to_point(uv.y(), self.height());
        let y0 = y.floor_index();
        let y1 = y.ceil_index();
        let u = y - Scalar::from_index(y0);
        let c00 = self.get_pixel(x0, y0).to_vec4();
        let c01 = self.get_pixel(x0, y1).to_vec4();
        let c10 = self.get_pixel(x1, y0).to_vec4();
        let c11 = self.get_pixel(x1, y1).to_vec4();
        (c00, c10, c01, c11, t, u)
    }

    /// The normalized color at `uv`: each coordinate is wrapped, and the
    /// filter reconstructs the color there.
    pub fn sample<
        TextureFilter: SampleFilter<InternalType, ExternalType>,
        WrapS: Wrapping,
        WrapT: Wrapping,
    >(&self, uv: &Vec2) -> (c: Vec4)
        requires
            self.wf(),
            self.width() > 0,
            self.height() > 0,
        ensures
            c == TextureFilter::sample_spec(
                crate::linalg::vec2(WrapS::wrap_spec(uv@[0]), WrapT::wrap_spec(uv@[1])),
                self,
            ),
    {
        TextureFilter::sample(Vec2::new(WrapS::wrap(uv.x()), WrapT::wrap(uv.y())), self)
    }
}

impl<InternalType: InternalColorType, ExternalType: ColorType<InternalType>> SampleFilter<
    InternalType,
    ExternalType,
> for NearestFilter {
    open spec fn sample_spec(uv: Vec2, texture: &BezierCanvas<InternalType, ExternalType>) -> Vec4 {
        texture.texel(
            uv_to_point_spec(uv@[0], texture.width()).round_index_spec() as int,
            uv_to_point_spec(uv@[1], texture.height()).round_index_spec() as int,
        )
    }

    fn sample(uv: Vec2, texture: &BezierCanvas<InternalType, ExternalType>) -> (c: Vec4) {
        proof {
            lemma_uv_to_point_bound(uv@[0], texture.width());
            lemma_uv_to_point_bound(uv@[1], texture.height());
        }
        texture.get_pixel(
            uv_to_point(uv.x(), texture.width()).round_index(),
            uv_to_point(uv.y(), texture.height()).round_index(),
        ).to_vec4()
    }
}

impl<InternalType: InternalColorType, ExternalType: ColorType<InternalType>> SampleFilter<
    InternalType,
    ExternalType,
> for LinearFilter {
    open spec fn sample_spec(uv: Vec2, texture: &BezierCanvas<InternalType, ExternalType>) -> Vec4 {
        texture.mix_around(uv, |t: Scalar| t)
    }

    fn sample(uv: Vec2, texture: &BezierCanvas<InternalType, ExternalType>) -> (c: Vec4) {
        let (c00, c10, c01, c11, t, u) = texture.around(uv);
        mix4(c00, c10, c01, c11, t, u)
    }
}

impl<InternalType: InternalColorType, ExternalType: ColorType<InternalType>> SampleFilter<
    InternalType,
    ExternalType,
> for CubicFilter {
    open spec fn sample_spec(uv: Vec2, texture: &BezierCanvas<InternalType, ExternalType>) -> Vec4 {
        texture.mix_around(uv, |t: Scalar| smooth_step_spec(t))
    }

    fn sample(uv: Vec2, texture: &BezierCanvas<InternalType, ExternalType>) -> (c: Vec4) {
        let (c00, c10, c01, c11, t, u) = texture.around(uv);
        mix4(c00, c10, c01, c11, smooth_step(t), smooth_step(u))
    }
}

impl Wrapping for WrapRepeat {
    open spec fn wrap_spec(x: Scalar) -> Scalar {
        x.sub_spec(x.floor_spec())
    }

    fn wrap(x: Scalar) -> (r: Scalar) {
        x - x.floor()
    }
}

impl Wrapping for WrapClampToEdge {
    open spec fn wrap_spec(x: Scalar) -> Scalar {
        x.clamp_unit_spec()
    }

    fn wrap(x: Scalar) -> (r: Scalar) {
        x.clamp_unit()
    }
}

} // verus!
