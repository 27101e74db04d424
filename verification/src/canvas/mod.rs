//! The canvas: a pixel buffer, and the primitives that draw into it.
//!
//! Drawing addresses the canvas in the framebuffer convention: the unit
//! square is the whole canvas, and pixel `k` of `n` along an axis covers
//! `[k / n, (k + 1) / n)`, with its center at `(k + 1/2) / n`.
use crate::linalg::Vec2;
use crate::scalar::{Scalar, ONE_RAW};
use crate::types::blend::{Blend, BlendMode};
use crate::types::{ColorType, InternalColorType};
use std::marker::PhantomData;
use vstd::prelude::*;
use vstd::std_specs::ops::{AddSpec, DivSpec, MulSpec, SubSpec};

pub mod bezier;
pub mod convert;
pub mod shade;
pub mod shape;
pub mod square;
pub mod texture;

verus! {

broadcast use vstd::array::group_array_axioms;

/// A `width` by `height` grid of raw pixels, row by row.
pub struct BezierCanvas<InternalType: InternalColorType, ExternalType: ColorType<InternalType>> {
    width: usize,
    height: usize,
    pixels: Vec<InternalType>,
    external_type: PhantomData<ExternalType>,
}

/// The center of pixel `k` of `n` along an axis: `(k + 1/2) / n`, rounded
/// down to a multiple of `2^-32`.
pub open spec fn pixel_center(k: int, n: usize) -> Scalar {
    Scalar { raw: (((2 * k + 1) * 0x8000_0000) / (n as int)) as i64 }
}

/// The center of a pixel lies in the pixel, along an axis of at most `2^31`
/// pixels.
pub proof fn lemma_center_in_pixel(k: int, n: usize)
    requires
        0 <= k < n <= 0x8000_0000,
    ensures
        0 <= pixel_center(k, n).raw < 0x1_0000_0000,
        pixel_center(k, n).scale_floor_spec(n) == k,
{
    let num = (2 * k + 1) * 0x8000_0000;
    let c = num / (n as int);
    vstd::arithmetic::div_mod::lemma_fundamental_div_mod(num, n as int);
    vstd::arithmetic::div_mod::lemma_mod_bound(num, n as int);
    assert(n * c == c * n) by (nonlinear_arith);
    vstd::arithmetic::div_mod::lemma_div_pos_is_pos(num, n as int);
    assert(num < 0x1_0000_0000 * n);
    assert(c < 0x1_0000_0000) by (nonlinear_arith)
        requires
            c * n <= num,
            num < 0x1_0000_0000 * n,
            n > 0,
    ;
    assert(pixel_center(k, n).raw == c);
    assert(k * 0x1_0000_0000 <= c * n < (k + 1) * 0x1_0000_0000);
    vstd::arithmetic::div_mod::lemma_fundamental_div_mod_converse(
        c * n,
        0x1_0000_0000,
        k,
        c * n - k * 0x1_0000_0000,
    );
}

/// Pixel `(x, y)` of a `w` wide canvas is entry `y * w + x`, and the entries
/// of a `w` by `h` canvas are exactly those.
pub proof fn lemma_pixel_index(x: int, y: int, w: int, h: int)
    requires
        0 <= x < w,
        0 <= y < h,
    ensures
        0 <= y * w + x < w * h,
        (y * w + x) / w == y,
        (y * w + x) % w == x,
{
    assert(0 <= y * w && y * w + w <= h * w && h * w == w * h) by (nonlinear_arith)
        requires
            0 <= y < h,
            0 < w,
    ;
    vstd::arithmetic::div_mod::lemma_fundamental_div_mod_converse(y * w + x, w, y, x);
}

/// Entry `i` of a `w` by `h` canvas is pixel `(i % w, i / w)`.
pub proof fn lemma_index_pixel(i: int, w: int, h: int)
    requires
        0 <= i < w * h,
        0 <= w,
        0 <= h,
    ensures
        0 <= i % w < w,
        0 <= i / w < h,
        i == (i / w) * w + i % w,
{
    assert(w > 0) by (nonlinear_arith)
        requires
            0 <= i < w * h,
            0 <= w,
    ;
    vstd::arithmetic::div_mod::lemma_fundamental_div_mod(i, w);
    vstd::arithmetic::div_mod::lemma_mod_bound(i, w);
    let q = i / w;
    assert(w * q == q * w) by (nonlinear_arith);
    assert(0 <= q < h) by (nonlinear_arith)
        requires
            i == q * w + i % w,
            0 <= i % w < w,
            0 <= i < w * h,
            0 < w,
    ;
}

impl<InternalType: InternalColorType, ExternalType: ColorType<InternalType>> View for BezierCanvas<
    InternalType,
    ExternalType,
> {
    type V = Seq<InternalType>;

    closed spec fn view(&self) -> Seq<InternalType> {
        self.pixels@
    }
}

impl<InternalType: InternalColorType, ExternalType: ColorType<InternalType>> BezierCanvas<
    InternalType,
    ExternalType,
> {
    /// The number of pixels in a row.
    pub closed spec fn width_spec(&self) -> usize {
        self.width
    }

    /// The number of rows.
    pub closed spec fn height_spec(&self) -> usize {
        self.height
    }

    /// The number of pixels in a row.
    #[verifier::when_used_as_spec(width_spec)]
    pub fn width(&self) -> (w: usize)
        ensures
            w == self.width(),
    {
        self.width
    }

    /// The number of rows.
    #[verifier::when_used_as_spec(height_spec)]
    pub fn height(&self) -> (h: usize)
        ensures
            h == self.height(),
    {
        self.height
    }

    /// The buffer holds one entry for each pixel.
    pub open spec fn wf(&self) -> bool {
        self@.len() == self.width() * self.height()
    }

    /// The raw value of pixel `(x, y)`.
    pub open spec fn raw_at(&self, x: int, y: int) -> InternalType {
        self@[y * self.width() + x]
    }

    /// The color of pixel `(x, y)`.
    pub open spec fn pixel_at(&self, x: int, y: int) -> ExternalType {
        ExternalType::from_value_spec(self.raw_at(x, y))
    }

    /// Whether the two canvases have the same size.
    pub open spec fn same_size(&self, other: &Self) -> bool {
        self.width() == other.width() && self.height() == other.height()
    }

    /// A canvas of the given size, every pixel zero.
    pub fn new(width: usize, height: usize) -> (canvas: Self)
        requires
            width * height <= usize::MAX,
        ensures
            canvas.wf(),
            canvas.width() == width,
            canvas.height() == height,
            forall|i: int| 0 <= i < width * height ==> canvas@[i] == InternalType::zero_spec(),
            forall|x: int, y: int|
                0 <= x < width && 0 <= y < height ==> #[trigger] canvas.pixel_at(x, y)
                    == ExternalType::from_value_spec(InternalType::zero_spec()),
    {
        let n: usize = width * height;
        let mut pixels: Vec<InternalType> = Vec::new();
        let mut i: usize = 0;
        while i < n
            invariant
                i <= n,
                pixels@.len() == i,
                forall|j: int| 0 <= j < i ==> pixels@[j] == InternalType::zero_spec(),
            decreases n - i,
        {
            pixels.push(InternalType::zero());
            i += 1;
        }
        let canvas = BezierCanvas { width, height, pixels, external_type: PhantomData };
        proof {
            let zero = ExternalType::from_value_spec(InternalType::zero_spec());
            assert forall|x: int, y: int| 0 <= x < width && 0 <= y < height implies #[trigger] canvas.pixel_at(
                x,
                y,
            ) == zero by {
                lemma_pixel_index(x, y, width as int, height as int);
            }
        }
        canvas
    }

    /// The color of pixel `(x, y)`.
    pub fn get_pixel(&self, x: usize, y: usize) -> (c: ExternalType)
        requires
            self.wf(),
            x < self.width(),
            y < self.height(),
        ensures
            c == self.pixel_at(x as int, y as int),
    {
        proof {
            lemma_pixel_index(x as int, y as int, self.width as int, self.height as int);
            assert(self.pixels.len() == self.width * self.height);
        }
        ExternalType::from_value(self.pixels[y * self.width + x])
    }

    /// The center of pixel `pix` of `max` along an axis.
    pub open spec fn pixel_to_xy_spec(pix: usize, max: usize) -> Scalar {
        pixel_center(pix as int, max)
    }

    pub fn pixel_to_xy(pix: usize, max: usize) -> (xy: Scalar)
        requires
            pix < max,
        ensures
            xy == Self::pixel_to_xy_spec(pix, max),
            0 <= xy.raw < ONE_RAW,
    {
        let num: u128 = (2 * (pix as u128) + 1) * 0x8000_0000u128;
        let q: u128 = num / (max as u128);
        proof {
            assert(num < (max as u128) * 0x1_0000_0000u128);
            vstd::arithmetic::div_mod::lemma_div_by_multiple_is_strongly_ordered(
                num as int,
                max * 0x1_0000_0000,
                0x1_0000_0000,
                max as int,
            );
            vstd::arithmetic::div_mod::lemma_div_by_multiple(0x1_0000_0000, max as int);
        }
        Scalar { raw: q as i64 }
    }

    /// The pixel along an axis of `max` pixels that holds the coordinate
    /// `xy`: `floor(xy * max)`, and 0 for a negative coordinate. A coordinate
    /// of 1 or more gives `max` or more, which names no pixel.
    pub open spec fn xy_to_pixel_spec(xy: Scalar, max: usize) -> usize {
        xy.scale_floor_spec(max)
    }

    pub fn xy_to_pixel(xy: Scalar, max: usize) -> (pix: usize)
        ensures
            pix == Self::xy_to_pixel_spec(xy, max),
    {
        xy.scale_floor(max)
    }
}

impl<InternalType: InternalColorType, ExternalType: Blend<InternalType>> BezierCanvas<
    InternalType,
    ExternalType,
> {
    /// The buffer `pixels` of a `width` wide canvas after `color` is composited
    /// over every pixel that `covers` holds of.
    pub open spec fn paint(
        pixels: Seq<InternalType>,
        width: usize,
        covers: spec_fn(int, int) -> bool,
        color: ExternalType,
        blend_mode: BlendMode,
    ) -> Seq<InternalType> {
        Seq::new(
            pixels.len(),
            |i: int|
                if covers(i % (width as int), i / (width as int)) {
                    color.blend_spec(pixels[i], blend_mode)
                } else {
                    pixels[i]
                },
        )
    }

    /// The buffer of this canvas after `color` is composited over every pixel
    /// that `covers` holds of.
    pub open spec fn painted(
        &self,
        covers: spec_fn(int, int) -> bool,
        color: ExternalType,
        blend_mode: BlendMode,
    ) -> Seq<InternalType> {
        Self::paint(self@, self.width(), covers, color, blend_mode)
    }

    /// Masks that agree on every pixel of the canvas paint the same buffer.
    pub proof fn lemma_painted_ext(
        &self,
        mask1: spec_fn(int, int) -> bool,
        mask2: spec_fn(int, int) -> bool,
        color: ExternalType,
        blend_mode: BlendMode,
    )
        requires
            self.wf(),
            forall|x: int, y: int|
                0 <= x < self.width() && 0 <= y < self.height() ==> #[trigger] mask1(x, y)
                    == mask2(x, y),
        ensures
            self.painted(mask1, color, blend_mode) == self.painted(mask2, color, blend_mode),
    {
        let first = self.painted(mask1, color, blend_mode);
        let second = self.painted(mask2, color, blend_mode);
        assert forall|i: int| 0 <= i < first.len() implies first[i] == second[i] by {
            lemma_index_pixel(i, self.width() as int, self.height() as int);
            let px = i % (self.width() as int);
            let py = i / (self.width() as int);
            assert(mask1(px, py) == mask2(px, py));
        }
        assert(first =~= second);
    }

    /// A mask that holds nowhere on the canvas paints nothing.
    pub proof fn lemma_painted_none(
        &self,
        mask: spec_fn(int, int) -> bool,
        color: ExternalType,
        blend_mode: BlendMode,
    )
        requires
            self.wf(),
            forall|x: int, y: int|
                0 <= x < self.width() && 0 <= y < self.height() ==> !#[trigger] mask(x, y),
        ensures
            self.painted(mask, color, blend_mode) == self@,
    {
        let p = self.painted(mask, color, blend_mode);
        assert forall|i: int| 0 <= i < p.len() implies p[i] == self@[i] by {
            lemma_index_pixel(i, self.width() as int, self.height() as int);
            let px = i % (self.width() as int);
            let py = i / (self.width() as int);
            assert(!mask(px, py));
        }
        assert(p =~= self@);
    }

    /// One more pixel of a painting: `self` holds `before` painted where
    /// `done` holds, and pixel `(x, y)` is not among those.
    fn paint_pixel(
        &mut self,
        Ghost(before): Ghost<Self>,
        Ghost(done): Ghost<spec_fn(int, int) -> bool>,
        x: usize,
        y: usize,
        color: &ExternalType,
        blend_mode: BlendMode,
    ) -> (now: Ghost<spec_fn(int, int) -> bool>)
        requires
            old(self).wf(),
            before.wf(),
            old(self).same_size(&before),
            old(self)@ == before.painted(done, *color, blend_mode),
            x < old(self).width(),
            y < old(self).height(),
            !done(x as int, y as int),
            ExternalType::supports_spec(blend_mode),
        ensures
            final(self).wf(),
            final(self).same_size(&before),
            final(self)@ == before.painted(now@, *color, blend_mode),
            forall|px: int, py: int|
                #[trigger] now@(px, py) == (done(px, py) || (px == x && py == y)),
    {
        let ghost now = |px: int, py: int| done(px, py) || (px == x && py == y);
        proof {
            lemma_pixel_index(x as int, y as int, self.width as int, self.height as int);
        }
        self.set_pixel(x, y, color, blend_mode);
        proof {
            let target = before.painted(now, *color, blend_mode);
            let w = self.width as int;
            assert forall|i: int| 0 <= i < self@.len() implies self@[i] == target[i] by {
                lemma_index_pixel(i, w, self.height as int);
                let px = i % w;
                let py = i / w;
                assert(before.painted(done, *color, blend_mode)[i] == (if done(px, py) {
                    color.blend_spec(before@[i], blend_mode)
                } else {
                    before@[i]
                }));
                assert(target[i] == (if now(px, py) {
                    color.blend_spec(before@[i], blend_mode)
                } else {
                    before@[i]
                }));
                if i == y * w + x {
                    assert(px == x && py == y);
                } else {
                    assert(!(px == x && py == y));
                }
            }
            assert(self@ =~= target);
        }
        Ghost(now)
    }

    /// Whether the rectangle with corner `pos` and extent `size`, clipped to
    /// the unit square, covers pixel `(x, y)`. A rectangle that is clipped to
    /// nothing, or has no area, covers no pixel; any other covers the pixels
    /// that hold its corners and those between.
    pub open spec fn rect_covers(w: usize, h: usize, pos: Vec2, size: Vec2, x: int, y: int) -> bool {
        let x_lo = pos@[0].clamp_unit_spec();
        let x_hi = pos@[0].add_spec(size@[0]).clamp_unit_spec();
        let y_lo = pos@[1].clamp_unit_spec();
        let y_hi = pos@[1].add_spec(size@[1]).clamp_unit_spec();
        &&& x_lo.raw < x_hi.raw
        &&& y_lo.raw < y_hi.raw
        &&& Self::xy_to_pixel_spec(x_lo, w) <= x <= Self::xy_to_pixel_spec(x_hi, w)
        &&& Self::xy_to_pixel_spec(y_lo, h) <= y <= Self::xy_to_pixel_spec(y_hi, h)
    }

    /// The pixels that the rectangle covers.
    pub open spec fn rect_mask(w: usize, h: usize, pos: Vec2, size: Vec2) -> spec_fn(
        int,
        int,
    ) -> bool {
        |x: int, y: int| Self::rect_covers(w, h, pos, size, x, y)
    }

    /// A rectangle without area, or one that lies beside the unit square,
    /// covers no pixel.
    pub proof fn lemma_empty_rect_covers_nothing(
        w: usize,
        h: usize,
        pos: Vec2,
        size: Vec2,
        x: int,
        y: int,
    )
        requires
            ({
                ||| size@[0].raw <= 0
                ||| size@[1].raw <= 0
                ||| pos@[0].raw >= ONE_RAW
                ||| pos@[1].raw >= ONE_RAW
                ||| pos@[0].add_spec(size@[0]).raw <= 0
                ||| pos@[1].add_spec(size@[1]).raw <= 0
            }),
        ensures
            !Self::rect_covers(w, h, pos, size, x, y),
    {
    }

    /// The rectangle over the whole unit square covers every pixel.
    pub proof fn lemma_full_rect_covers(w: usize, h: usize, x: int, y: int)
        requires
            0 <= x < w,
            0 <= y < h,
        ensures
            Self::rect_covers(
                w,
                h,
                crate::linalg::vec2(Scalar::zero_spec(), Scalar::zero_spec()),
                crate::linalg::vec2(Scalar::one_spec(), Scalar::one_spec()),
                x,
                y,
            ),
    {
        crate::scalar::lemma_scale_floor_one(w);
        crate::scalar::lemma_scale_floor_one(h);
    }

    /// Filling the whole canvas with a color, replacing what is there, sets
    /// every pixel to the color.
    pub proof fn lemma_fill_all(&self, color: ExternalType)
        requires
            self.wf(),
        ensures
            ExternalType::supports_spec(BlendMode::Override),
            forall|i: int|
                0 <= i < self@.len() ==> #[trigger] self.painted(
                    Self::rect_mask(
                        self.width(),
                        self.height(),
                        crate::linalg::vec2(Scalar::zero_spec(), Scalar::zero_spec()),
                        crate::linalg::vec2(Scalar::one_spec(), Scalar::one_spec()),
                    ),
                    color,
                    BlendMode::Override,
                )[i] == color.to_value_spec(),
    {
        let w = self.width();
        let h = self.height();
        let origin = crate::linalg::vec2(Scalar::zero_spec(), Scalar::zero_spec());
        let extent = crate::linalg::vec2(Scalar::one_spec(), Scalar::one_spec());
        let target = self.painted(Self::rect_mask(w, h, origin, extent), color, BlendMode::Override);
        color.lemma_override(self@[0]);
        assert forall|i: int| 0 <= i < self@.len() implies #[trigger] target[i]
            == color.to_value_spec() by {
            lemma_index_pixel(i, w as int, h as int);
            let px = i % (w as int);
            let py = i / (w as int);
            Self::lemma_full_rect_covers(w, h, px, py);
            assert(Self::rect_mask(w, h, origin, extent)(px, py));
            color.lemma_override(self@[i]);
        }
    }

    /// Composites `color` over the pixels of a rectangle.
    pub fn fill_rect(
        &mut self,
        pos: &Vec2,
        size: &Vec2,
        color: &ExternalType,
        blend_mode: BlendMode,
    )
        requires
            old(self).wf(),
            ExternalType::supports_spec(blend_mode),
        ensures
            final(self).wf(),
            final(self).same_size(old(self)),
            final(self)@ == old(self).painted(
                Self::rect_mask(old(self).width(), old(self).height(), *pos, *size),
                *color,
                blend_mode,
            ),
    {
        let ghost before = *self;
        let w = self.width;
        let h = self.height;
        let x_lo = pos.x().clamp_unit();
        let x_hi = (pos.x() + size.x()).clamp_unit();
        let y_lo = pos.y().clamp_unit();
        let y_hi = (pos.y() + size.y()).clamp_unit();
        let mut done: Ghost<spec_fn(int, int) -> bool> = Ghost(|px: int, py: int| false);
        proof {
            before.lemma_painted_none(done@, *color, blend_mode);
        }
        if x_lo.raw >= x_hi.raw || y_lo.raw >= y_hi.raw {
            proof {
                before.lemma_painted_ext(done@, Self::rect_mask(w, h, *pos, *size), *color, blend_mode);
            }
            return ;
        }
        let x_0 = Self::xy_to_pixel(x_lo, w);
        let x_1 = Self::xy_to_pixel(x_hi, w);
        let y_0 = Self::xy_to_pixel(y_lo, h);
        let y_1 = Self::xy_to_pixel(y_hi, h);
        let x_end: usize = if x_1 < w { x_1 + 1 } else { w };
        let y_end: usize = if y_1 < h { y_1 + 1 } else { h };
        let mut y: usize = y_0;
        while y < y_end
            invariant
                self.wf(),
                before.wf(),
                self.same_size(&before),
                ExternalType::supports_spec(blend_mode),
                w == self.width,
                h == self.height,
                x_lo == pos@[0].clamp_unit_spec(),
                x_hi == pos@[0].add_spec(size@[0]).clamp_unit_spec(),
                y_lo == pos@[1].clamp_unit_spec(),
                y_hi == pos@[1].add_spec(size@[1]).clamp_unit_spec(),
                x_lo.raw < x_hi.raw,
                y_lo.raw < y_hi.raw,
                x_0 == Self::xy_to_pixel_spec(x_lo, w),
                x_1 == Self::xy_to_pixel_spec(x_hi, w),
                y_0 == Self::xy_to_pixel_spec(y_lo, h),
                y_1 == Self::xy_to_pixel_spec(y_hi, h),
                x_end == if x_1 < w { x_1 + 1 } else { w as int },
                y_end == if y_1 < h { y_1 + 1 } else { h as int },
                y_0 <= y,
                self@ == before.painted(done@, *color, blend_mode),
                forall|px: int, py: int|
                    0 <= px < w && 0 <= py < h ==> #[trigger] done@(px, py) == (Self::rect_covers(
                        w,
                        h,
                        *pos,
                        *size,
                        px,
                        py,
                    ) && py < y),
            decreases y_end - y,
        {
            let mut x: usize = x_0;
            while x < x_end
                invariant
                    self.wf(),
                    before.wf(),
                    self.same_size(&before),
                    ExternalType::supports_spec(blend_mode),
                    w == self.width,
                    h == self.height,
                    x_lo == pos@[0].clamp_unit_spec(),
                    x_hi == pos@[0].add_spec(size@[0]).clamp_unit_spec(),
                    y_lo == pos@[1].clamp_unit_spec(),
                    y_hi == pos@[1].add_spec(size@[1]).clamp_unit_spec(),
                    x_lo.raw < x_hi.raw,
                    y_lo.raw < y_hi.raw,
                    x_0 == Self::xy_to_pixel_spec(x_lo, w),
                    x_1 == Self::xy_to_pixel_spec(x_hi, w),
                    y_0 == Self::xy_to_pixel_spec(y_lo, h),
                    y_1 == Self::xy_to_pixel_spec(y_hi, h),
                    x_end == if x_1 < w { x_1 + 1 } else { w as int },
                    y_end == if y_1 < h { y_1 + 1 } else { h as int },
                    y_0 <= y < y_end,
                    x_0 <= x,
                    self@ == before.painted(done@, *color, blend_mode),
                    forall|px: int, py: int|
                        0 <= px < w && 0 <= py < h ==> #[trigger] done@(px, py) == (
                        Self::rect_covers(w, h, *pos, *size, px, py) && (py < y || (py == y && px
                            < x))),
                decreases x_end - x,
            {
                assert(Self::rect_covers(w, h, *pos, *size, x as int, y as int));
                done = self.paint_pixel(Ghost(before), done, x, y, color, blend_mode);
                x += 1;
            }
            y += 1;
        }
        proof {
            before.lemma_painted_ext(done@, Self::rect_mask(w, h, *pos, *size), *color, blend_mode);
        }
    }

    /// Whether the center of pixel `(x, y)` lies in the ellipse around `pos`
    /// with semi-axes `size`: `(dx / size.x)^2 + (dy / size.y)^2 <= 1`, asked
    /// of the pixels between those that hold the ends of the two axes, clipped
    /// to the unit square. An ellipse with a semi-axis of zero holds no pixel.
    pub open spec fn oval_covers(w: usize, h: usize, pos: Vec2, size: Vec2, x: int, y: int) -> bool {
        let x_0 = Self::xy_to_pixel_spec(pos@[0].sub_spec(size@[0]).clamp_unit_spec(), w);
        let x_1 = Self::xy_to_pixel_spec(pos@[0].add_spec(size@[0]).clamp_unit_spec(), w);
        let y_0 = Self::xy_to_pixel_spec(pos@[1].sub_spec(size@[1]).clamp_unit_spec(), h);
        let y_1 = Self::xy_to_pixel_spec(pos@[1].add_spec(size@[1]).clamp_unit_spec(), h);
        let qx = Self::pixel_to_xy_spec(x as usize, w).sub_spec(pos@[0]).div_spec(size@[0]);
        let qy = Self::pixel_to_xy_spec(y as usize, h).sub_spec(pos@[1]).div_spec(size@[1]);
        &&& x_0 <= x <= x_1
        &&& y_0 <= y <= y_1
        &&& 0 <= x < w
        &&& 0 <= y < h
        &&& size@[0].raw != 0
        &&& size@[1].raw != 0
        &&& qx.mul_spec(qx).add_spec(qy.mul_spec(qy)).raw <= ONE_RAW
    }

    /// An ellipse around the center of a pixel holds that pixel, however
    /// small its semi-axes are, on a canvas of at most `2^31` pixels each way.
    pub proof fn lemma_oval_holds_its_center(
        w: usize,
        h: usize,
        pos: Vec2,
        size: Vec2,
        x: int,
        y: int,
    )
        requires
            0 <= x < w <= 0x8000_0000,
            0 <= y < h <= 0x8000_0000,
            size@[0].raw > 0,
            size@[1].raw > 0,
            pos@[0] == pixel_center(x, w),
            pos@[1] == pixel_center(y, h),
        ensures
            Self::oval_covers(w, h, pos, size, x, y),
    {
        lemma_center_in_pixel(x, w);
        lemma_center_in_pixel(y, h);
        pos@[0].sub_spec(size@[0]).clamp_unit_spec().lemma_scale_floor_monotone(pos@[0], w);
        pos@[0].lemma_scale_floor_monotone(pos@[0].add_spec(size@[0]).clamp_unit_spec(), w);
        pos@[1].sub_spec(size@[1]).clamp_unit_spec().lemma_scale_floor_monotone(pos@[1], h);
        pos@[1].lemma_scale_floor_monotone(pos@[1].add_spec(size@[1]).clamp_unit_spec(), h);
        let zero = Scalar::zero_spec();
        assert(Self::pixel_to_xy_spec(x as usize, w).sub_spec(pos@[0]) == zero);
        assert(Self::pixel_to_xy_spec(y as usize, h).sub_spec(pos@[1]) == zero);
        assert(0int * 0x1_0000_0000 == 0);
        assert(0int / (size@[0].raw as int) == 0 && 0int / (size@[1].raw as int) == 0) by {
            vstd::arithmetic::div_mod::lemma_div_basics(size@[0].raw as int);
            vstd::arithmetic::div_mod::lemma_div_basics(size@[1].raw as int);
        }
        assert(zero.div_spec(size@[0]) == zero);
        assert(zero.div_spec(size@[1]) == zero);
        crate::scalar::lemma_zero_one(zero);
    }

    /// The pixels that the ellipse holds.
    pub open spec fn oval_mask(w: usize, h: usize, pos: Vec2, size: Vec2) -> spec_fn(
        int,
        int,
    ) -> bool {
        |x: int, y: int| Self::oval_covers(w, h, pos, size, x, y)
    }

    /// Composites `color` over the pixels of an ellipse.
    pub fn fill_oval(
        &mut self,
        pos: &Vec2,
        size: &Vec2,
        color: &ExternalType,
        blend_mode: BlendMode,
    )
        requires
            old(self).wf(),
            ExternalType::supports_spec(blend_mode),
        ensures
            final(self).wf(),
            final(self).same_size(old(self)),
            final(self)@ == old(self).painted(
                Self::oval_mask(old(self).width(), old(self).height(), *pos, *size),
                *color,
                blend_mode,
            ),
    {
        let ghost before = *self;
        let w = self.width;
        let h = self.height;
        let x_0 = Self::xy_to_pixel((pos.x() - size.x()).clamp_unit(), w);
        let x_1 = Self::xy_to_pixel((pos.x() + size.x()).clamp_unit(), w);
        let y_0 = Self::xy_to_pixel((pos.y() - size.y()).clamp_unit(), h);
        let y_1 = Self::xy_to_pixel((pos.y() + size.y()).clamp_unit(), h);
        let x_end: usize = if x_1 < w { x_1 + 1 } else { w };
        let y_end: usize = if y_1 < h { y_1 + 1 } else { h };
        let mut done: Ghost<spec_fn(int, int) -> bool> = Ghost(|px: int, py: int| false);
        proof {
            before.lemma_painted_none(done@, *color, blend_mode);
        }
        if size.x().is_zero() || size.y().is_zero() {
            proof {
                before.lemma_painted_ext(done@, Self::oval_mask(w, h, *pos, *size), *color, blend_mode);
            }
            return ;
        }
        let mut y: usize = y_0;
        while y < y_end
            invariant
                self.wf(),
                before.wf(),
                self.same_size(&before),
                ExternalType::supports_spec(blend_mode),
                w == self.width,
                h == self.height,
                x_end == if x_1 < w { x_1 + 1 } else { w as int },
                y_end == if y_1 < h { y_1 + 1 } else { h as int },
                x_0 == Self::xy_to_pixel_spec(pos@[0].sub_spec(size@[0]).clamp_unit_spec(), w),
                x_1 == Self::xy_to_pixel_spec(pos@[0].add_spec(size@[0]).clamp_unit_spec(), w),
                y_0 == Self::xy_to_pixel_spec(pos@[1].sub_spec(size@[1]).clamp_unit_spec(), h),
                y_1 == Self::xy_to_pixel_spec(pos@[1].add_spec(size@[1]).clamp_unit_spec(), h),
                size@[0].raw != 0,
                size@[1].raw != 0,
                y_0 <= y,
                self@ == before.painted(done@, *color, blend_mode),
                forall|px: int, py: int|
                    #[trigger] done@(px, py) == (Self::oval_covers(w, h, *pos, *size, px, py) && py < y),
            decreases y_end - y,
        {
            let qy = (Self::pixel_to_xy(y, h) - pos.y()) / size.y();
            let y2 = qy * qy;
            let mut x: usize = x_0;
            while x < x_end
                invariant
                    self.wf(),
                    before.wf(),
                    self.same_size(&before),
                    ExternalType::supports_spec(blend_mode),
                    w == self.width,
                    h == self.height,
                    x_end == if x_1 < w { x_1 + 1 } else { w as int },
                    y_end == if y_1 < h { y_1 + 1 } else { h as int },
                    y < y_end <= h,
                    x_0 == Self::xy_to_pixel_spec(pos@[0].sub_spec(size@[0]).clamp_unit_spec(), w),
                    x_1 == Self::xy_to_pixel_spec(pos@[0].add_spec(size@[0]).clamp_unit_spec(), w),
                    y_0 == Self::xy_to_pixel_spec(pos@[1].sub_spec(size@[1]).clamp_unit_spec(), h),
                    y_1 == Self::xy_to_pixel_spec(pos@[1].add_spec(size@[1]).clamp_unit_spec(), h),
                    size@[0].raw != 0,
                    size@[1].raw != 0,
                    y_0 <= y,
                    x_0 <= x,
                    qy == Self::pixel_to_xy_spec(y, h).sub_spec(pos@[1]).div_spec(size@[1]),
                    y2 == qy.mul_spec(qy),
                    self@ == before.painted(done@, *color, blend_mode),
                    forall|px: int, py: int|
                        #[trigger] done@(px, py) == (Self::oval_covers(w, h, *pos, *size, px, py) && (py
                            < y || (py == y && px < x))),
                decreases x_end - x,
            {
                let qx = (Self::pixel_to_xy(x, w) - pos.x()) / size.x();
                let inside = (qx * qx + y2).raw <= ONE_RAW;
                assert(inside == Self::oval_covers(w, h, *pos, *size, x as int, y as int));
                if inside {
                    done = self.paint_pixel(Ghost(before), done, x, y, color, blend_mode);
                }
                x += 1;
            }
            y += 1;
        }
        proof {
            before.lemma_painted_ext(done@, Self::oval_mask(w, h, *pos, *size), *color, blend_mode);
        }
    }

    /// Composites `color` over the pixels of a circle: the ellipse with both
    /// semi-axes `radius`.
    pub fn fill_circle(
        &mut self,
        pos: &Vec2,
        radius: Scalar,
        color: &ExternalType,
        blend_mode: BlendMode,
    )
        requires
            old(self).wf(),
            ExternalType::supports_spec(blend_mode),
        ensures
            final(self).wf(),
            final(self).same_size(old(self)),
            final(self)@ == old(self).painted(
                Self::oval_mask(
                    old(self).width(),
                    old(self).height(),
                    *pos,
                    crate::linalg::vec2(radius, radius),
                ),
                *color,
                blend_mode,
            ),
    {
        let size = Vec2::new(radius, radius);
        self.fill_oval(pos, &size, color, blend_mode);
    }

    /// The coordinate across, at the coordinate `c` along axis `a`, of the
    /// line through `start` and `end`: `slope * c + (start[b] - slope * start[a])` with
    /// `slope = (end[b] - start[b]) / (end[a] - start[a])`, where `b` is the other axis.
    pub open spec fn line_solve(start: Vec2, end: Vec2, a: int, c: Scalar) -> Scalar {
        let b = 1 - a;
        let slope = end@[b].sub_spec(start@[b]).div_spec(end@[a].sub_spec(start@[a]));
        slope.mul_spec(c).add_spec(start@[b].sub_spec(slope.mul_spec(start@[a])))
    }

    /// The first pixel along axis `a`, of `n`, that a stroke from `start` to `end`
    /// visits.
    pub open spec fn line_first(start: Vec2, end: Vec2, a: int, n: usize) -> int {
        Self::xy_to_pixel_spec(start@[a].min_spec(end@[a]).clamp_unit_spec(), n) as int
    }

    /// The last pixel along axis `a`, of `n`, that a stroke from `start` to `end`
    /// visits.
    pub open spec fn line_last(start: Vec2, end: Vec2, a: int, n: usize) -> int {
        let k = Self::xy_to_pixel_spec(start@[a].max_spec(end@[a]).clamp_unit_spec(), n);
        if k >= n {
            n - 1
        } else {
            k as int
        }
    }

    /// Whether a stroke from `start` to `end` that steps along axis `a` writes the
    /// pixel at `k` along (of `n_along`) and `j` across (of `n_across`): at
    /// the center of `k` the line is at a coordinate within `[0, 1)` that
    /// pixel `j` holds.
    pub open spec fn line_hits(
        start: Vec2,
        end: Vec2,
        a: int,
        n_along: usize,
        n_across: usize,
        k: int,
        j: int,
    ) -> bool {
        let v = Self::line_solve(start, end, a, Self::pixel_to_xy_spec(k as usize, n_along));
        &&& end@[a].sub_spec(start@[a]).raw != 0
        &&& 0 <= k < n_along
        &&& Self::line_first(start, end, a, n_along) <= k <= Self::line_last(start, end, a, n_along)
        &&& 0 <= v.raw < ONE_RAW
        &&& j == Self::xy_to_pixel_spec(v, n_across)
    }

    /// Whether a stroke from `start` to `end` writes pixel `(x, y)`. Where the
    /// line is wider than high the stroke steps along x and solves for y;
    /// else it steps along y and solves for x.
    pub open spec fn line_covers(w: usize, h: usize, start: Vec2, end: Vec2, x: int, y: int) -> bool {
        let dx = end@[0].sub_spec(start@[0]).abs_spec();
        let dy = end@[1].sub_spec(start@[1]).abs_spec();
        if dx.raw > dy.raw {
            Self::line_hits(start, end, 0, w, h, x, y)
        } else {
            Self::line_hits(start, end, 1, h, w, y, x)
        }
    }

    /// The pixels that the stroke writes.
    pub open spec fn line_mask(w: usize, h: usize, start: Vec2, end: Vec2) -> spec_fn(int, int) -> bool {
        |x: int, y: int| Self::line_covers(w, h, start, end, x, y)
    }

    /// The stroke of a line that is wider than high: one pixel in each
    /// column.
    fn stroke_line_gentle(
        &mut self,
        pos0: &Vec2,
        pos1: &Vec2,
        color: &ExternalType,
        blend_mode: BlendMode,
    )
        requires
            old(self).wf(),
            ExternalType::supports_spec(blend_mode),
            pos1@[0].sub_spec(pos0@[0]).abs_spec().raw > pos1@[1].sub_spec(pos0@[1]).abs_spec().raw,
        ensures
            final(self).wf(),
            final(self).same_size(old(self)),
            final(self)@ == old(self).painted(
                Self::line_mask(old(self).width(), old(self).height(), *pos0, *pos1),
                *color,
                blend_mode,
            ),
    {
        let ghost before = *self;
        let w = self.width;
        let h = self.height;
        let mut done: Ghost<spec_fn(int, int) -> bool> = Ghost(|px: int, py: int| false);
        proof {
            before.lemma_painted_none(done@, *color, blend_mode);
        }
        if w == 0 || h == 0 {
            proof {
                before.lemma_painted_ext(
                    done@,
                    Self::line_mask(w, h, *pos0, *pos1),
                    *color,
                    blend_mode,
                );
            }
            return ;
        }
        let x_0 = Self::xy_to_pixel(pos0.x().min(pos1.x()).clamp_unit(), w);
        let mut x_1 = Self::xy_to_pixel(pos0.x().max(pos1.x()).clamp_unit(), w);
        if x_1 >= w {
            x_1 = w - 1;
        }
        let slope = (pos1.y() - pos0.y()) / (pos1.x() - pos0.x());
        let intercept = pos0.y() - slope * pos0.x();
        let mut x: usize = x_0;
        while x <= x_1
            invariant
                self.wf(),
                before.wf(),
                self.same_size(&before),
                ExternalType::supports_spec(blend_mode),
                w == self.width,
                h == self.height,
                w > 0,
                h > 0,
                pos1@[0].sub_spec(pos0@[0]).abs_spec().raw > pos1@[1].sub_spec(
                    pos0@[1],
                ).abs_spec().raw,
                x_0 == Self::line_first(*pos0, *pos1, 0, w),
                x_1 == Self::line_last(*pos0, *pos1, 0, w),
                x_1 < w,
                x_0 <= x,
                slope == pos1@[1].sub_spec(pos0@[1]).div_spec(pos1@[0].sub_spec(pos0@[0])),
                intercept == pos0@[1].sub_spec(slope.mul_spec(pos0@[0])),
                self@ == before.painted(done@, *color, blend_mode),
                forall|px: int, py: int|
                    #[trigger] done@(px, py) == (Self::line_covers(w, h, *pos0, *pos1, px, py)
                        && px < x),
            decreases x_1 + 1 - x,
        {
            let y = slope * Self::pixel_to_xy(x, w) + intercept;
            assert(y == Self::line_solve(*pos0, *pos1, 0, Self::pixel_to_xy_spec(x, w)));
            if y.raw >= 0 && y.raw < ONE_RAW {
                proof {
                    y.lemma_scale_floor_bound(h);
                }
                let row = Self::xy_to_pixel(y, h);
                assert(Self::line_covers(w, h, *pos0, *pos1, x as int, row as int));
                done = self.paint_pixel(Ghost(before), done, x, row, color, blend_mode);
            }
            x += 1;
        }
        proof {
            before.lemma_painted_ext(done@, Self::line_mask(w, h, *pos0, *pos1), *color, blend_mode);
        }
    }

    /// The stroke of a line that is at least as high as wide: one pixel in
    /// each row. A line of no length has no stroke.
    fn stroke_line_steep(
        &mut self,
        pos0: &Vec2,
        pos1: &Vec2,
        color: &ExternalType,
        blend_mode: BlendMode,
    )
        requires
            old(self).wf(),
            ExternalType::supports_spec(blend_mode),
            pos1@[0].sub_spec(pos0@[0]).abs_spec().raw <= pos1@[1].sub_spec(
                pos0@[1],
            ).abs_spec().raw,
        ensures
            final(self).wf(),
            final(self).same_size(old(self)),
            final(self)@ == old(self).painted(
                Self::line_mask(old(self).width(), old(self).height(), *pos0, *pos1),
                *color,
                blend_mode,
            ),
    {
        let ghost before = *self;
        let w = self.width;
        let h = self.height;
        let mut done: Ghost<spec_fn(int, int) -> bool> = Ghost(|px: int, py: int| false);
        proof {
            before.lemma_painted_none(done@, *color, blend_mode);
        }
        let rise = pos1.y() - pos0.y();
        if w == 0 || h == 0 || rise.is_zero() {
            proof {
                before.lemma_painted_ext(
                    done@,
                    Self::line_mask(w, h, *pos0, *pos1),
                    *color,
                    blend_mode,
                );
            }
            return ;
        }
        let y_0 = Self::xy_to_pixel(pos0.y().min(pos1.y()).clamp_unit(), h);
        let mut y_1 = Self::xy_to_pixel(pos0.y().max(pos1.y()).clamp_unit(), h);
        if y_1 >= h {
            y_1 = h - 1;
        }
        let slope = (pos1.x() - pos0.x()) / rise;
        let intercept = pos0.x() - slope * pos0.y();
        let mut y: usize = y_0;
        while y <= y_1
            invariant
                self.wf(),
                before.wf(),
                self.same_size(&before),
                ExternalType::supports_spec(blend_mode),
                w == self.width,
                h == self.height,
                w > 0,
                h > 0,
                pos1@[0].sub_spec(pos0@[0]).abs_spec().raw <= pos1@[1].sub_spec(
                    pos0@[1],
                ).abs_spec().raw,
                pos1@[1].sub_spec(pos0@[1]).raw != 0,
                y_0 == Self::line_first(*pos0, *pos1, 1, h),
                y_1 == Self::line_last(*pos0, *pos1, 1, h),
                y_1 < h,
                y_0 <= y,
                slope == pos1@[0].sub_spec(pos0@[0]).div_spec(pos1@[1].sub_spec(pos0@[1])),
                intercept == pos0@[0].sub_spec(slope.mul_spec(pos0@[1])),
                self@ == before.painted(done@, *color, blend_mode),
                forall|px: int, py: int|
                    #[trigger] done@(px, py) == (Self::line_covers(w, h, *pos0, *pos1, px, py)
                        && py < y),
            decreases y_1 + 1 - y,
        {
            let x = slope * Self::pixel_to_xy(y, h) + intercept;
            assert(x == Self::line_solve(*pos0, *pos1, 1, Self::pixel_to_xy_spec(y, h)));
            if x.raw >= 0 && x.raw < ONE_RAW {
                proof {
                    x.lemma_scale_floor_bound(w);
                }
                let col = Self::xy_to_pixel(x, w);
                assert(Self::line_covers(w, h, *pos0, *pos1, col as int, y as int));
                done = self.paint_pixel(Ghost(before), done, col, y, color, blend_mode);
            }
            y += 1;
        }
        proof {
            before.lemma_painted_ext(done@, Self::line_mask(w, h, *pos0, *pos1), *color, blend_mode);
        }
    }

    /// Composites `color` over the stroke of the line from `pos0` to `pos1`.
    pub fn stroke_line(
        &mut self,
        pos0: &Vec2,
        pos1: &Vec2,
        color: &ExternalType,
        blend_mode: BlendMode,
    )
        requires
            old(self).wf(),
            ExternalType::supports_spec(blend_mode),
        ensures
            final(self).wf(),
            final(self).same_size(old(self)),
            final(self)@ == old(self).painted(
                Self::line_mask(old(self).width(), old(self).height(), *pos0, *pos1),
                *color,
                blend_mode,
            ),
    {
        let dx = (pos1.x() - pos0.x()).abs();
        let dy = (pos1.y() - pos0.y()).abs();
        if dx.raw > dy.raw {
            self.stroke_line_gentle(pos0, pos1, color, blend_mode);
        } else {
            self.stroke_line_steep(pos0, pos1, color, blend_mode);
        }
    }

    /// Composites `pixel` over pixel `(x, y)`.
    pub fn set_pixel(&mut self, x: usize, y: usize, pixel: &ExternalType, blend_mode: BlendMode)
        requires
            old(self).wf(),
            x < old(self).width(),
            y < old(self).height(),
            ExternalType::supports_spec(blend_mode),
        ensures
            final(self).wf(),
            final(self).same_size(old(self)),
            final(self)@ == old(self)@.update(
                y * old(self).width() + x,
                pixel.blend_spec(old(self).raw_at(x as int, y as int), blend_mode),
            ),
    {
        proof {
            lemma_pixel_index(x as int, y as int, self.width as int, self.height as int);
            assert(self.pixels.len() == self.width * self.height);
        }
        let i: usize = y * self.width + x;
        let bg = self.pixels[i];
        self.pixels[i] = pixel.blend(bg, blend_mode);
    }
}

} // verus!
