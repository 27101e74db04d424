//! The shading pipeline: triangles through a vertex stage and a fragment
//! stage, with a depth test at each pixel.
//!
//! The triangles are taken in the order given. Within a triangle every pixel
//! of its box is visited once: where the pixel's center lies in the triangle
//! the fragment stage is asked for a color and a depth, and the color is
//! composited if the depth is greater than what the pixel holds so far.
use crate::canvas::{lemma_index_pixel, lemma_pixel_index, pixel_center, BezierCanvas};
use crate::linalg::{Linear, Vec2};
use crate::scalar::{Scalar, EPSILON_RAW};
use crate::shading::{FragOut, FragmentShader, VertexOut, VertexShader};
use crate::types::blend::{Blend, BlendMode};
use crate::types::InternalColorType;
use rayon::iter::{IntoParallelIterator, ParallelIterator};
use vstd::prelude::*;
use vstd::std_specs::ops::{DivSpec, MulSpec, SubSpec};

verus! {

broadcast use vstd::array::group_array_axioms;

/// What the depth test makes of a pixel and the depth it holds: a fragment
/// that lies higher is composited and leaves its depth; any other leaves
/// both as they are.
pub open spec fn depth_test_spec<InternalType: InternalColorType, ExternalType: Blend<InternalType>>(
    pixel: InternalType,
    depth: Scalar,
    shaded: FragOut<InternalType, ExternalType>,
    blend_mode: BlendMode,
) -> (InternalType, Scalar) {
    if shaded.depth.raw > depth.raw {
        (shaded.color.blend_spec(pixel, blend_mode), shaded.depth)
    } else {
        (pixel, depth)
    }
}

/// The depth test at one pixel.
pub fn depth_test<InternalType: InternalColorType, ExternalType: Blend<InternalType>>(
    pixel: InternalType,
    depth: Scalar,
    shaded: &FragOut<InternalType, ExternalType>,
    blend_mode: BlendMode,
) -> (out: (InternalType, Scalar))
    requires
        ExternalType::supports_spec(blend_mode),
    ensures
        out == depth_test_spec(pixel, depth, *shaded, blend_mode),
{
    if shaded.depth.raw > depth.raw {
        (shaded.color.blend(pixel, blend_mode), shaded.depth)
    } else {
        (pixel, depth)
    }
}

/// Two fragments at one pixel, replacing what is there: where their depths
/// differ, the order in which they come does not matter.
pub proof fn lemma_depth_test_order<InternalType: InternalColorType, ExternalType: Blend<InternalType>>(
    pixel: InternalType,
    depth: Scalar,
    first: FragOut<InternalType, ExternalType>,
    second: FragOut<InternalType, ExternalType>,
)
    requires
        first.depth != second.depth,
    ensures
        ({
            let one = depth_test_spec(pixel, depth, first, BlendMode::Override);
            let other = depth_test_spec(pixel, depth, second, BlendMode::Override);
            depth_test_spec(one.0, one.1, second, BlendMode::Override) == depth_test_spec(
                other.0,
                other.1,
                first,
                BlendMode::Override,
            )
        }),
{
    first.color.lemma_override(pixel);
    second.color.lemma_override(pixel);
    let one = depth_test_spec(pixel, depth, first, BlendMode::Override);
    let other = depth_test_spec(pixel, depth, second, BlendMode::Override);
    first.color.lemma_override(other.0);
    second.color.lemma_override(one.0);
}

/// Two fragments at one pixel, replacing what is there: the pixel ends with
/// the color of the one that lies higher, if that one lies higher than what
/// the pixel held; of two of one depth, with the color of the first.
pub proof fn lemma_depth_test_higher_wins<
    InternalType: InternalColorType,
    ExternalType: Blend<InternalType>,
>(
    pixel: InternalType,
    depth: Scalar,
    first: FragOut<InternalType, ExternalType>,
    second: FragOut<InternalType, ExternalType>,
)
    requires
        first.depth.raw > depth.raw || second.depth.raw > depth.raw,
    ensures
        ({
            let one = depth_test_spec(pixel, depth, first, BlendMode::Override);
            let both = depth_test_spec(one.0, one.1, second, BlendMode::Override);
            both == if second.depth.raw > first.depth.raw {
                (second.color.to_value_spec(), second.depth)
            } else {
                (first.color.to_value_spec(), first.depth)
            }
        }),
{
    first.color.lemma_override(pixel);
    second.color.lemma_override(pixel);
    let one = depth_test_spec(pixel, depth, first, BlendMode::Override);
    second.color.lemma_override(one.0);
}

/// The first pixel, of `n` along axis `a`, of the box around a triangle,
/// clipped to the unit square.
pub open spec fn tri_first(v0: Vec2, v1: Vec2, v2: Vec2, a: int, n: usize) -> int {
    v0@[a].min_spec(v1@[a]).min_spec(v2@[a]).clamp_unit_spec().scale_floor_spec(n) as int
}

/// The last pixel, of `n` along axis `a`, of the box around a triangle,
/// clipped to the unit square.
pub open spec fn tri_last(v0: Vec2, v1: Vec2, v2: Vec2, a: int, n: usize) -> int {
    let k = v0@[a].max_spec(v1@[a]).max_spec(v2@[a]).clamp_unit_spec().scale_floor_spec(n);
    if k >= n {
        n - 1
    } else {
        k as int
    }
}

/// Whether pixel `(x, y)` lies in the box around a triangle.
pub open spec fn tri_box(w: usize, h: usize, v0: Vec2, v1: Vec2, v2: Vec2, x: int, y: int) -> bool {
    &&& tri_first(v0, v1, v2, 0, w) <= x <= tri_last(v0, v1, v2, 0, w)
    &&& tri_first(v0, v1, v2, 1, h) <= y <= tri_last(v0, v1, v2, 1, h)
}

/// The pixels of the box around a triangle.
pub open spec fn tri_box_mask(w: usize, h: usize, v0: Vec2, v1: Vec2, v2: Vec2) -> spec_fn(
    int,
    int,
) -> bool {
    |x: int, y: int| tri_box(w, h, v0, v1, v2, x, y)
}

/// The determinant `a * d - b * c`.
pub open spec fn det2_spec(a: Scalar, b: Scalar, c: Scalar, d: Scalar) -> Scalar {
    a.mul_spec(d).sub_spec(b.mul_spec(c))
}

pub fn det2(a: Scalar, b: Scalar, c: Scalar, d: Scalar) -> (r: Scalar)
    ensures
        r == det2_spec(a, b, c, d),
{
    a * d - b * c
}

/// The determinant of the two edges that leave `v0`: twice the triangle's
/// signed area.
pub open spec fn tri_det(v0: Vec2, v1: Vec2, v2: Vec2) -> Scalar {
    det2_spec(
        v1@[0].sub_spec(v0@[0]),
        v2@[0].sub_spec(v0@[0]),
        v1@[1].sub_spec(v0@[1]),
        v2@[1].sub_spec(v0@[1]),
    )
}

/// Whether a triangle has no area to speak of.
pub open spec fn tri_degenerate(v0: Vec2, v1: Vec2, v2: Vec2) -> bool {
    tri_det(v0, v1, v2).abs_spec().raw < EPSILON_RAW
}

/// The weights `(1 - t - u, t, u)` of the three corners at the center of
/// pixel `(x, y)`, if the center lies in the triangle: `t` and `u` are the
/// center's coordinates along the two edges that leave `v0`, and the center
/// lies in the triangle if none of the three weights is negative.
pub open spec fn tri_weights(
    w: usize,
    h: usize,
    v0: Vec2,
    v1: Vec2,
    v2: Vec2,
    x: int,
    y: int,
) -> Option<(Scalar, Scalar, Scalar)> {
    let m00 = v1@[0].sub_spec(v0@[0]);
    let m01 = v2@[0].sub_spec(v0@[0]);
    let m10 = v1@[1].sub_spec(v0@[1]);
    let m11 = v2@[1].sub_spec(v0@[1]);
    let det = det2_spec(m00, m01, m10, m11);
    let ax = pixel_center(x, w).sub_spec(v0@[0]);
    let ay = pixel_center(y, h).sub_spec(v0@[1]);
    let t = det2_spec(ax, m01, ay, m11).div_spec(det);
    let u = det2_spec(m00, ax, m10, ay).div_spec(det);
    let rest = Scalar::one_spec().sub_spec(t).sub_spec(u);
    if t.raw < 0 || u.raw < 0 || rest.raw < 0 {
        None
    } else {
        Some((rest, t, u))
    }
}

/// The varying value at weights `k` of the three corners' values.
pub open spec fn interpolate<T: Linear>(a0: T, a1: T, a2: T, k: (Scalar, Scalar, Scalar)) -> T {
    a0.scale_spec(k.0).sum_spec(a1.scale_spec(k.1)).sum_spec(a2.scale_spec(k.2))
}

/// A depth buffer of `n` entries that hold nothing yet.
pub open spec fn empty_depths(n: nat) -> Seq<Scalar> {
    Seq::new(n, |i: int| Scalar::lowest_spec())
}

/// What the vertex stage makes of each vertex.
pub open spec fn vertex_outs<VertShader: VertexShader>(
    attribute: Seq<VertShader::Attribute>,
    uniform: VertShader::Uniform,
) -> Seq<VertexOut<VertShader::Out>> {
    Seq::new(attribute.len(), |i: int| VertShader::shade_spec(&attribute[i], &uniform))
}

/// The vertex stage, on all vertices at once: rayon's `into_par_iter` on a
/// slice, `map` and `collect` into a vector. The contract claims that the
/// vector holds, in the order of the vertices, what the stage's `shade`
/// returns for each: rayon collects an indexed iterator in its order, and the
/// stage is pure.
#[verifier::external_body]
fn vertex_stage<VertShader: VertexShader>(
    attribute: &[VertShader::Attribute],
    uniform: &VertShader::Uniform,
) -> (out: Vec<VertexOut<VertShader::Out>>)
    requires
        VertShader::accepts(uniform),
    ensures
        out@ == vertex_outs::<VertShader>(attribute@, *uniform),
{
    attribute.into_par_iter().map(|v| VertShader::shade(v, uniform)).collect()
}

impl<InternalType: InternalColorType, ExternalType: Blend<InternalType>> BezierCanvas<
    InternalType,
    ExternalType,
> {
    /// The pixels and depths of a `w` wide canvas after `touch` has been
    /// asked, at every pixel that `done` holds of, what becomes of the pixel
    /// and its depth.
    pub open spec fn retouch(
        pixels: Seq<InternalType>,
        depths: Seq<Scalar>,
        w: usize,
        done: spec_fn(int, int) -> bool,
        touch: spec_fn(int, int, InternalType, Scalar) -> (InternalType, Scalar),
    ) -> (Seq<InternalType>, Seq<Scalar>) {
        (
            Seq::new(
                pixels.len(),
                |i: int|
                    if done(i % (w as int), i / (w as int)) {
                        touch(i % (w as int), i / (w as int), pixels[i], depths[i]).0
                    } else {
                        pixels[i]
                    },
            ),
            Seq::new(
                depths.len(),
                |i: int|
                    if done(i % (w as int), i / (w as int)) {
                        touch(i % (w as int), i / (w as int), pixels[i], depths[i]).1
                    } else {
                        depths[i]
                    },
            ),
        )
    }

    /// Sets of pixels that agree on the canvas retouch alike.
    pub proof fn lemma_retouch_ext(
        pixels: Seq<InternalType>,
        depths: Seq<Scalar>,
        w: usize,
        h: usize,
        done1: spec_fn(int, int) -> bool,
        done2: spec_fn(int, int) -> bool,
        touch: spec_fn(int, int, InternalType, Scalar) -> (InternalType, Scalar),
    )
        requires
            pixels.len() == w * h,
            depths.len() == w * h,
            forall|x: int, y: int|
                0 <= x < w && 0 <= y < h ==> #[trigger] done1(x, y) == done2(x, y),
        ensures
            Self::retouch(pixels, depths, w, done1, touch) == Self::retouch(
                pixels,
                depths,
                w,
                done2,
                touch,
            ),
    {
        let r1 = Self::retouch(pixels, depths, w, done1, touch);
        let r2 = Self::retouch(pixels, depths, w, done2, touch);
        assert forall|i: int| 0 <= i < w * h implies r1.0[i] == r2.0[i] by {
            lemma_index_pixel(i, w as int, h as int);
            assert(done1(i % (w as int), i / (w as int)) == done2(i % (w as int), i / (w as int)));
        }
        assert forall|i: int| 0 <= i < w * h implies r1.1[i] == r2.1[i] by {
            lemma_index_pixel(i, w as int, h as int);
            assert(done1(i % (w as int), i / (w as int)) == done2(i % (w as int), i / (w as int)));
        }
        assert(r1.0 =~= r2.0);
        assert(r1.1 =~= r2.1);
    }

    /// Where nothing is done nothing changes.
    pub proof fn lemma_retouch_none(
        pixels: Seq<InternalType>,
        depths: Seq<Scalar>,
        w: usize,
        h: usize,
        done: spec_fn(int, int) -> bool,
        touch: spec_fn(int, int, InternalType, Scalar) -> (InternalType, Scalar),
    )
        requires
            pixels.len() == w * h,
            depths.len() == w * h,
            forall|x: int, y: int| 0 <= x < w && 0 <= y < h ==> !#[trigger] done(x, y),
        ensures
            Self::retouch(pixels, depths, w, done, touch) == (pixels, depths),
    {
        let r = Self::retouch(pixels, depths, w, done, touch);
        assert forall|i: int| 0 <= i < w * h implies r.0[i] == pixels[i] by {
            lemma_index_pixel(i, w as int, h as int);
            assert(!done(i % (w as int), i / (w as int)));
        }
        assert forall|i: int| 0 <= i < w * h implies r.1[i] == depths[i] by {
            lemma_index_pixel(i, w as int, h as int);
            assert(!done(i % (w as int), i / (w as int)));
        }
        assert(r.0 =~= pixels);
        assert(r.1 =~= depths);
    }

    /// One more pixel of a retouching: pixel `(x, y)`, which was not done,
    /// gets what `touch` makes of it.
    fn touch_pixel(
        &mut self,
        depth_buffer: &mut Vec<Scalar>,
        Ghost(before): Ghost<Seq<InternalType>>,
        Ghost(depth_before): Ghost<Seq<Scalar>>,
        Ghost(done): Ghost<spec_fn(int, int) -> bool>,
        Ghost(touch): Ghost<spec_fn(int, int, InternalType, Scalar) -> (InternalType, Scalar)>,
        x: usize,
        y: usize,
        pixel: InternalType,
        depth: Scalar,
    ) -> (now: Ghost<spec_fn(int, int) -> bool>)
        requires
            old(self).wf(),
            before.len() == old(self).width() * old(self).height(),
            depth_before.len() == old(self).width() * old(self).height(),
            (old(self)@, old(depth_buffer)@) == Self::retouch(
                before,
                depth_before,
                old(self).width(),
                done,
                touch,
            ),
            x < old(self).width(),
            y < old(self).height(),
            !done(x as int, y as int),
            (pixel, depth) == touch(
                x as int,
                y as int,
                old(self)@[y * old(self).width() + x],
                old(depth_buffer)@[y * old(self).width() + x],
            ),
        ensures
            final(self).wf(),
            final(self).same_size(old(self)),
            (final(self)@, final(depth_buffer)@) == Self::retouch(
                before,
                depth_before,
                old(self).width(),
                now@,
                touch,
            ),
            forall|px: int, py: int|
                #[trigger] now@(px, py) == (done(px, py) || (px == x && py == y)),
    {
        let ghost now = |px: int, py: int| done(px, py) || (px == x && py == y);
        let ghost w = self.width as int;
        let ghost h = self.height as int;
        proof {
            lemma_pixel_index(x as int, y as int, w, h);
            assert(self.pixels.len() == w * h);
            assert(depth_buffer.len() == w * h);
        }
        let i: usize = y * self.width + x;
        self.pixels[i] = pixel;
        depth_buffer[i] = depth;
        proof {
            let prev = Self::retouch(before, depth_before, self.width, done, touch);
            let target = Self::retouch(before, depth_before, self.width, now, touch);
            assert forall|k: int| 0 <= k < w * h implies self@[k] == target.0[k] by {
                lemma_index_pixel(k, w, h);
                let px = k % w;
                let py = k / w;
                assert(prev.0[k] == (if done(px, py) {
                    touch(px, py, before[k], depth_before[k]).0
                } else {
                    before[k]
                }));
                assert(prev.1[k] == (if done(px, py) {
                    touch(px, py, before[k], depth_before[k]).1
                } else {
                    depth_before[k]
                }));
                assert(target.0[k] == (if now(px, py) {
                    touch(px, py, before[k], depth_before[k]).0
                } else {
                    before[k]
                }));
                assert(target.1[k] == (if now(px, py) {
                    touch(px, py, before[k], depth_before[k]).1
                } else {
                    depth_before[k]
                }));
                if k == y * w + x {
                    assert(px == x && py == y);
                } else {
                    assert(!(px == x && py == y));
                }
            }
            assert forall|k: int| 0 <= k < w * h implies depth_buffer@[k] == target.1[k] by {
                lemma_index_pixel(k, w, h);
                let px = k % w;
                let py = k / w;
                assert(prev.0[k] == (if done(px, py) {
                    touch(px, py, before[k], depth_before[k]).0
                } else {
                    before[k]
                }));
                assert(prev.1[k] == (if done(px, py) {
                    touch(px, py, before[k], depth_before[k]).1
                } else {
                    depth_before[k]
                }));
                assert(target.0[k] == (if now(px, py) {
                    touch(px, py, before[k], depth_before[k]).0
                } else {
                    before[k]
                }));
                assert(target.1[k] == (if now(px, py) {
                    touch(px, py, before[k], depth_before[k]).1
                } else {
                    depth_before[k]
                }));
                if k == y * w + x {
                    assert(px == x && py == y);
                } else {
                    assert(!(px == x && py == y));
                }
            }
            assert(self@ =~= target.0);
            assert(depth_buffer@ =~= target.1);
        }
        Ghost(now)
    }

    /// What one triangle makes of a pixel and its depth: at a pixel whose
    /// center lies in the triangle, what the depth test makes of the
    /// fragment stage's answer to the interpolated varying value.
    pub open spec fn tri_touch<
        FragShader: FragmentShader<InternalType = InternalType, ExternalType = ExternalType>,
    >(
        w: usize,
        h: usize,
        va: VertexOut<FragShader::In>,
        vb: VertexOut<FragShader::In>,
        vc: VertexOut<FragShader::In>,
        uniform: FragShader::Uniform,
        blend_mode: BlendMode,
    ) -> spec_fn(int, int, InternalType, Scalar) -> (InternalType, Scalar) {
        |x: int, y: int, pixel: InternalType, depth: Scalar|
            match tri_weights(w, h, va.coord, vb.coord, vc.coord, x, y) {
                Some(k) => depth_test_spec(
                    pixel,
                    depth,
                    FragShader::shade_spec(
                        &interpolate(va.varying, vb.varying, vc.varying, k),
                        &uniform,
                    ),
                    blend_mode,
                ),
                None => (pixel, depth),
            }
    }

    /// The pixels and depths after one triangle. A triangle with no area
    /// leaves both as they are.
    pub open spec fn tri_frame<
        FragShader: FragmentShader<InternalType = InternalType, ExternalType = ExternalType>,
    >(
        pixels: Seq<InternalType>,
        depths: Seq<Scalar>,
        w: usize,
        h: usize,
        va: VertexOut<FragShader::In>,
        vb: VertexOut<FragShader::In>,
        vc: VertexOut<FragShader::In>,
        uniform: FragShader::Uniform,
        blend_mode: BlendMode,
    ) -> (Seq<InternalType>, Seq<Scalar>) {
        if tri_degenerate(va.coord, vb.coord, vc.coord) {
            (pixels, depths)
        } else {
            Self::retouch(
                pixels,
                depths,
                w,
                tri_box_mask(w, h, va.coord, vb.coord, vc.coord),
                Self::tri_touch::<FragShader>(w, h, va, vb, vc, uniform, blend_mode),
            )
        }
    }

    /// The pixels and depths after the first `k` triangles: triangle `i` has
    /// the corners `3 i`, `3 i + 1` and `3 i + 2` of `outs`.
    pub open spec fn shade_frames<
        FragShader: FragmentShader<InternalType = InternalType, ExternalType = ExternalType>,
    >(
        pixels: Seq<InternalType>,
        depths: Seq<Scalar>,
        w: usize,
        h: usize,
        outs: Seq<VertexOut<FragShader::In>>,
        uniform: FragShader::Uniform,
        blend_mode: BlendMode,
        k: nat,
    ) -> (Seq<InternalType>, Seq<Scalar>)
        decreases k,
    {
        if k == 0 {
            (pixels, depths)
        } else {
            let prev = Self::shade_frames::<FragShader>(
                pixels,
                depths,
                w,
                h,
                outs,
                uniform,
                blend_mode,
                (k - 1) as nat,
            );
            Self::tri_frame::<FragShader>(
                prev.0,
                prev.1,
                w,
                h,
                outs[3 * k - 3],
                outs[3 * k - 2],
                outs[3 * k - 1],
                uniform,
                blend_mode,
            )
        }
    }

    /// The fragment of a triangle at pixel `(x, y)`, if it has one there:
    /// what the fragment stage answers to the interpolated varying value,
    /// where the triangle has an area, the pixel lies in its box, and the
    /// pixel's center lies in the triangle.
    pub open spec fn tri_fragment<
        FragShader: FragmentShader<InternalType = InternalType, ExternalType = ExternalType>,
    >(
        w: usize,
        h: usize,
        va: VertexOut<FragShader::In>,
        vb: VertexOut<FragShader::In>,
        vc: VertexOut<FragShader::In>,
        uniform: FragShader::Uniform,
        x: int,
        y: int,
    ) -> Option<FragOut<InternalType, ExternalType>> {
        if tri_degenerate(va.coord, vb.coord, vc.coord) || !tri_box(
            w,
            h,
            va.coord,
            vb.coord,
            vc.coord,
            x,
            y,
        ) {
            None
        } else {
            match tri_weights(w, h, va.coord, vb.coord, vc.coord, x, y) {
                Some(k) => Some(
                    FragShader::shade_spec(
                        &interpolate(va.varying, vb.varying, vc.varying, k),
                        &uniform,
                    ),
                ),
                None => None,
            }
        }
    }

    /// What a fragment, if there is one, makes of a pixel and its depth.
    pub open spec fn meet(
        pixel: InternalType,
        depth: Scalar,
        fragment: Option<FragOut<InternalType, ExternalType>>,
        blend_mode: BlendMode,
    ) -> (InternalType, Scalar) {
        match fragment {
            Some(shaded) => depth_test_spec(pixel, depth, shaded, blend_mode),
            None => (pixel, depth),
        }
    }

    /// After a triangle, each pixel and its depth are what the triangle's
    /// fragment there, if it has one, makes of them.
    pub proof fn lemma_tri_frame_at<
        FragShader: FragmentShader<InternalType = InternalType, ExternalType = ExternalType>,
    >(
        pixels: Seq<InternalType>,
        depths: Seq<Scalar>,
        w: usize,
        h: usize,
        va: VertexOut<FragShader::In>,
        vb: VertexOut<FragShader::In>,
        vc: VertexOut<FragShader::In>,
        uniform: FragShader::Uniform,
        blend_mode: BlendMode,
        i: int,
    )
        requires
            pixels.len() == w * h,
            depths.len() == w * h,
            0 <= i < w * h,
        ensures
            ({
                let after = Self::tri_frame::<FragShader>(
                    pixels,
                    depths,
                    w,
                    h,
                    va,
                    vb,
                    vc,
                    uniform,
                    blend_mode,
                );
                &&& after.0.len() == w * h
                &&& after.1.len() == w * h
                &&& (after.0[i], after.1[i]) == Self::meet(
                    pixels[i],
                    depths[i],
                    Self::tri_fragment::<FragShader>(
                        w,
                        h,
                        va,
                        vb,
                        vc,
                        uniform,
                        i % (w as int),
                        i / (w as int),
                    ),
                    blend_mode,
                )
            }),
    {
        lemma_index_pixel(i, w as int, h as int);
        let x = i % (w as int);
        let y = i / (w as int);
        let touch = Self::tri_touch::<FragShader>(w, h, va, vb, vc, uniform, blend_mode);
        let mask = tri_box_mask(w, h, va.coord, vb.coord, vc.coord);
        let touched = Self::retouch(pixels, depths, w, mask, touch);
        assert(mask(x, y) == tri_box(w, h, va.coord, vb.coord, vc.coord, x, y));
        assert(touched.0[i] == if mask(x, y) {
            touch(x, y, pixels[i], depths[i]).0
        } else {
            pixels[i]
        });
        assert(touched.1[i] == if mask(x, y) {
            touch(x, y, pixels[i], depths[i]).1
        } else {
            depths[i]
        });
    }

    /// Two triangles, replacing what is there: at a pixel where their
    /// fragments differ in depth, or where one of them has none, the order of
    /// the two triangles does not matter.
    pub proof fn lemma_triangle_order<
        FragShader: FragmentShader<InternalType = InternalType, ExternalType = ExternalType>,
    >(
        pixels: Seq<InternalType>,
        depths: Seq<Scalar>,
        w: usize,
        h: usize,
        first: (VertexOut<FragShader::In>, VertexOut<FragShader::In>, VertexOut<FragShader::In>),
        second: (VertexOut<FragShader::In>, VertexOut<FragShader::In>, VertexOut<FragShader::In>),
        uniform: FragShader::Uniform,
        i: int,
    )
        requires
            pixels.len() == w * h,
            depths.len() == w * h,
            0 <= i < w * h,
            ({
                let one = Self::tri_fragment::<FragShader>(
                    w,
                    h,
                    first.0,
                    first.1,
                    first.2,
                    uniform,
                    i % (w as int),
                    i / (w as int),
                );
                let other = Self::tri_fragment::<FragShader>(
                    w,
                    h,
                    second.0,
                    second.1,
                    second.2,
                    uniform,
                    i % (w as int),
                    i / (w as int),
                );
                one is Some && other is Some ==> one->0.depth != other->0.depth
            }),
        ensures
            ({
                let mode = BlendMode::Override;
                let a = Self::tri_frame::<FragShader>(
                    pixels,
                    depths,
                    w,
                    h,
                    first.0,
                    first.1,
                    first.2,
                    uniform,
                    mode,
                );
                let ab = Self::tri_frame::<FragShader>(
                    a.0,
                    a.1,
                    w,
                    h,
                    second.0,
                    second.1,
                    second.2,
                    uniform,
                    mode,
                );
                let b = Self::tri_frame::<FragShader>(
                    pixels,
                    depths,
                    w,
                    h,
                    second.0,
                    second.1,
                    second.2,
                    uniform,
                    mode,
                );
                let ba = Self::tri_frame::<FragShader>(
                    b.0,
                    b.1,
                    w,
                    h,
                    first.0,
                    first.1,
                    first.2,
                    uniform,
                    mode,
                );
                ab.0[i] == ba.0[i] && ab.1[i] == ba.1[i]
            }),
    {
        let mode = BlendMode::Override;
        let x = i % (w as int);
        let y = i / (w as int);
        let one = Self::tri_fragment::<FragShader>(w, h, first.0, first.1, first.2, uniform, x, y);
        let other = Self::tri_fragment::<FragShader>(
            w,
            h,
            second.0,
            second.1,
            second.2,
            uniform,
            x,
            y,
        );
        let a = Self::tri_frame::<FragShader>(
            pixels,
            depths,
            w,
            h,
            first.0,
            first.1,
            first.2,
            uniform,
            mode,
        );
        let b = Self::tri_frame::<FragShader>(
            pixels,
            depths,
            w,
            h,
            second.0,
            second.1,
            second.2,
            uniform,
            mode,
        );
        Self::lemma_tri_frame_at::<FragShader>(
            pixels,
            depths,
            w,
            h,
            first.0,
            first.1,
            first.2,
            uniform,
            mode,
            i,
        );
        Self::lemma_tri_frame_at::<FragShader>(
            pixels,
            depths,
            w,
            h,
            second.0,
            second.1,
            second.2,
            uniform,
            mode,
            i,
        );
        Self::lemma_tri_frame_at::<FragShader>(
            a.0,
            a.1,
            w,
            h,
            second.0,
            second.1,
            second.2,
            uniform,
            mode,
            i,
        );
        Self::lemma_tri_frame_at::<FragShader>(
            b.0,
            b.1,
            w,
            h,
            first.0,
            first.1,
            first.2,
            uniform,
            mode,
            i,
        );
        if one is Some && other is Some {
            lemma_depth_test_order(pixels[i], depths[i], one->0, other->0);
        }
    }

    /// Shades one triangle.
    pub fn shade_triangle<
        FragShader: FragmentShader<InternalType = InternalType, ExternalType = ExternalType>,
    >(
        &mut self,
        depth_buffer: &mut Vec<Scalar>,
        va: &VertexOut<FragShader::In>,
        vb: &VertexOut<FragShader::In>,
        vc: &VertexOut<FragShader::In>,
        uniform: &FragShader::Uniform,
        blend_mode: BlendMode,
    )
        requires
            old(self).wf(),
            old(depth_buffer)@.len() == old(self).width() * old(self).height(),
            ExternalType::supports_spec(blend_mode),
            FragShader::accepts(uniform),
        ensures
            final(self).wf(),
            final(self).same_size(old(self)),
            (final(self)@, final(depth_buffer)@) == Self::tri_frame::<FragShader>(
                old(self)@,
                old(depth_buffer)@,
                old(self).width(),
                old(self).height(),
                *va,
                *vb,
                *vc,
                *uniform,
                blend_mode,
            ),
    {
        let ghost before = self@;
        let ghost depth_before = depth_buffer@;
        let w = self.width;
        let h = self.height;
        let v0 = va.coord;
        let v1 = vb.coord;
        let v2 = vc.coord;
        let m00 = v1.x() - v0.x();
        let m01 = v2.x() - v0.x();
        let m10 = v1.y() - v0.y();
        let m11 = v2.y() - v0.y();
        let det_mat = det2(m00, m01, m10, m11);
        if det_mat.abs().raw < EPSILON_RAW {
            return ;
        }
        let ghost touch = Self::tri_touch::<FragShader>(w, h, *va, *vb, *vc, *uniform, blend_mode);
        let mut done: Ghost<spec_fn(int, int) -> bool> = Ghost(|px: int, py: int| false);
        proof {
            Self::lemma_retouch_none(before, depth_before, w, h, done@, touch);
        }
        if w == 0 || h == 0 {
            proof {
                Self::lemma_retouch_ext(
                    before,
                    depth_before,
                    w,
                    h,
                    done@,
                    tri_box_mask(w, h, v0, v1, v2),
                    touch,
                );
            }
            return ;
        }
        let min_x = v0.x().min(v1.x()).min(v2.x()).clamp_unit().scale_floor(w);
        let mut max_x = v0.x().max(v1.x()).max(v2.x()).clamp_unit().scale_floor(w);
        let min_y = v0.y().min(v1.y()).min(v2.y()).clamp_unit().scale_floor(h);
        let mut max_y = v0.y().max(v1.y()).max(v2.y()).clamp_unit().scale_floor(h);
        if max_x >= w {
            max_x = w - 1;
        }
        if max_y >= h {
            max_y = h - 1;
        }
        let mut y: usize = min_y;
        while y <= max_y
            invariant
                self.wf(),
                w == self.width,
                h == self.height,
                w > 0,
                h > 0,
                before.len() == w * h,
                depth_before.len() == w * h,
                ExternalType::supports_spec(blend_mode),
                FragShader::accepts(uniform),
                v0 == va.coord,
                v1 == vb.coord,
                v2 == vc.coord,
                m00 == v1@[0].sub_spec(v0@[0]),
                m01 == v2@[0].sub_spec(v0@[0]),
                m10 == v1@[1].sub_spec(v0@[1]),
                m11 == v2@[1].sub_spec(v0@[1]),
                det_mat == det2_spec(m00, m01, m10, m11),
                det_mat.raw != 0,
                touch == Self::tri_touch::<FragShader>(w, h, *va, *vb, *vc, *uniform, blend_mode),
                min_x == tri_first(v0, v1, v2, 0, w),
                max_x == tri_last(v0, v1, v2, 0, w),
                min_y == tri_first(v0, v1, v2, 1, h),
                max_y == tri_last(v0, v1, v2, 1, h),
                max_x < w,
                max_y < h,
                min_y <= y,
                (self@, depth_buffer@) == Self::retouch(before, depth_before, w, done@, touch),
                forall|px: int, py: int|
                    #[trigger] done@(px, py) == (tri_box(w, h, v0, v1, v2, px, py) && py < y),
            decreases max_y + 1 - y,
        {
            let mut x: usize = min_x;
            while x <= max_x
                invariant
                    self.wf(),
                    w == self.width,
                    h == self.height,
                    w > 0,
                    h > 0,
                    before.len() == w * h,
                    depth_before.len() == w * h,
                    ExternalType::supports_spec(blend_mode),
                    FragShader::accepts(uniform),
                    v0 == va.coord,
                    v1 == vb.coord,
                    v2 == vc.coord,
                    m00 == v1@[0].sub_spec(v0@[0]),
                    m01 == v2@[0].sub_spec(v0@[0]),
                    m10 == v1@[1].sub_spec(v0@[1]),
                    m11 == v2@[1].sub_spec(v0@[1]),
                    det_mat == det2_spec(m00, m01, m10, m11),
                    det_mat.raw != 0,
                    touch == Self::tri_touch::<FragShader>(
                        w,
                        h,
                        *va,
                        *vb,
                        *vc,
                        *uniform,
                        blend_mode,
                    ),
                    min_x == tri_first(v0, v1, v2, 0, w),
                    max_x == tri_last(v0, v1, v2, 0, w),
                    min_y == tri_first(v0, v1, v2, 1, h),
                    max_y == tri_last(v0, v1, v2, 1, h),
                    max_x < w,
                    min_y <= y <= max_y,
                    max_y < h,
                    min_x <= x,
                    (self@, depth_buffer@) == Self::retouch(before, depth_before, w, done@, touch),
                    forall|px: int, py: int|
                        #[trigger] done@(px, py) == (tri_box(w, h, v0, v1, v2, px, py) && (py < y
                            || (py == y && px < x))),
                decreases max_x + 1 - x,
            {
                proof {
                    lemma_pixel_index(x as int, y as int, w as int, h as int);
                    assert(self.pixels.len() == w * h);
                    assert(depth_buffer.len() == w * h);
                }
                let i: usize = y * w + x;
                let pixel = self.pixels[i];
                let depth = depth_buffer[i];
                assert(pixel == before[i as int] && depth == depth_before[i as int]) by {
                    assert(!done@(x as int, y as int));
                    let prev = Self::retouch(before, depth_before, w, done@, touch);
                    assert(prev.0[i as int] == before[i as int]);
                    assert(prev.1[i as int] == depth_before[i as int]);
                }
                let ax = Self::pixel_to_xy(x, w) - v0.x();
                let ay = Self::pixel_to_xy(y, h) - v0.y();
                let t = det2(ax, m01, ay, m11) / det_mat;
                let u = det2(m00, ax, m10, ay) / det_mat;
                let rest = Scalar::one() - t - u;
                let (new_pixel, new_depth) = if t.raw < 0 || u.raw < 0 || rest.raw < 0 {
                    (pixel, depth)
                } else {
                    let attrib = va.varying.scale(rest).sum(vb.varying.scale(t)).sum(
                        vc.varying.scale(u),
                    );
                    let shaded = FragShader::shade(&attrib, uniform);
                    depth_test(pixel, depth, &shaded, blend_mode)
                };
                assert((new_pixel, new_depth) == touch(x as int, y as int, pixel, depth));
                done =
                self.touch_pixel(
                    depth_buffer,
                    Ghost(before),
                    Ghost(depth_before),
                    done,
                    Ghost(touch),
                    x,
                    y,
                    new_pixel,
                    new_depth,
                );
                x += 1;
            }
            y += 1;
        }
        proof {
            Self::lemma_retouch_ext(
                before,
                depth_before,
                w,
                h,
                done@,
                tri_box_mask(w, h, v0, v1, v2),
                touch,
            );
        }
    }

    /// Shades triangles: the vertex stage turns each three entries of
    /// `attribute` into the corners of a triangle, and the triangles are
    /// shaded one after another, over a depth buffer that starts out empty.
    pub fn shade<
        Attribute: Sync,
        Uniform: Sync,
        Intermediate: Linear + Send + Sync,
        VertShader: VertexShader<Attribute = Attribute, Out = Intermediate, Uniform = Uniform>,
        FragShader: FragmentShader<
            In = Intermediate,
            Uniform = Uniform,
            InternalType = InternalType,
            ExternalType = ExternalType,
        >,
    >(&mut self, attribute: &[Attribute], uniform: &Uniform, blend_mode: BlendMode)
        requires
            old(self).wf(),
            ExternalType::supports_spec(blend_mode),
            VertShader::accepts(uniform),
            FragShader::accepts(uniform),
            attribute@.len() % 3 == 0,
        ensures
            final(self).wf(),
            final(self).same_size(old(self)),
            final(self)@ == Self::shade_frames::<FragShader>(
                old(self)@,
                empty_depths((old(self).width() * old(self).height()) as nat),
                old(self).width(),
                old(self).height(),
                vertex_outs::<VertShader>(attribute@, *uniform),
                *uniform,
                blend_mode,
                (attribute@.len() / 3) as nat,
            ).0,
    {
        let ghost before = self@;
        let w = self.width;
        let h = self.height;
        let n: usize = self.pixels.len();
        let mut depth_buffer: Vec<Scalar> = Vec::new();
        let mut i: usize = 0;
        while i < n
            invariant
                i <= n,
                depth_buffer@.len() == i,
                forall|j: int| 0 <= j < i ==> depth_buffer@[j] == Scalar::lowest_spec(),
            decreases n - i,
        {
            depth_buffer.push(Scalar::lowest());
            i += 1;
        }
        assert(depth_buffer@ =~= empty_depths((w * h) as nat));
        let out = vertex_stage::<VertShader>(attribute, uniform);
        let triangles: usize = out.len() / 3;
        let mut k: usize = 0;
        while k < triangles
            invariant
                k <= triangles,
                triangles == out@.len() / 3,
                out@.len() % 3 == 0,
                out@.len() <= usize::MAX,
                self.wf(),
                w == self.width,
                h == self.height,
                depth_buffer@.len() == w * h,
                ExternalType::supports_spec(blend_mode),
                FragShader::accepts(uniform),
                (self@, depth_buffer@) == Self::shade_frames::<FragShader>(
                    before,
                    empty_depths((w * h) as nat),
                    w,
                    h,
                    out@,
                    *uniform,
                    blend_mode,
                    k as nat,
                ),
            decreases triangles - k,
        {
            self.shade_triangle::<FragShader>(
                &mut depth_buffer,
                &out[3 * k],
                &out[3 * k + 1],
                &out[3 * k + 2],
                uniform,
                blend_mode,
            );
            k += 1;
        }
    }
}

} // verus!
