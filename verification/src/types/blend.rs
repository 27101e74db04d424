//! Compositing a color over a raw pixel.
//!
//! A channel `c` stands for `c / 255`. Each mode's formula is evaluated on
//! those exact fractions, and the result is the nearest channel value.
use crate::types::{
    lemma_ra_unpack_pack, lemma_rgba_unpack_pack, ColorType, InternalColorType, A, R, RA, RGB, RGBA,
};
use vstd::prelude::*;

verus! {

/// How a color is composited over a pixel.
#[derive(Copy, Clone, Debug, PartialEq, Eq, Structural)]
pub enum BlendMode {
    /// The color replaces the pixel.
    Override,
    /// The color lies over the pixel, as far as its alpha says.
    Alpha,
    /// Each channel is the product of the two.
    Multiply,
    /// Each channel is the inverse of the product of the two inverses.
    Screen,
}

/// The integer nearest to `n / d`, for `n >= 0` and `d > 0`.
pub open spec fn round_div(n: int, d: int) -> int {
    (2 * n + d) / (2 * d)
}

/// `round_div(n, d)` is within one half of `n / d`.
pub proof fn lemma_round_div_nearest(n: int, d: int)
    requires
        n >= 0,
        d > 0,
    ensures
        2 * d * round_div(n, d) - d <= 2 * n < 2 * d * round_div(n, d) + d,
        0 <= round_div(n, d),
{
    vstd::arithmetic::div_mod::lemma_fundamental_div_mod(2 * n + d, 2 * d);
    vstd::arithmetic::div_mod::lemma_div_pos_is_pos(2 * n + d, 2 * d);
}

/// A multiple of `d` divides exactly.
pub proof fn lemma_round_div_multiple(k: int, d: int)
    requires
        k >= 0,
        d > 0,
    ensures
        round_div(d * k, d) == k,
{
    assert(2 * (d * k) + d == k * (2 * d) + d) by (nonlinear_arith);
    vstd::arithmetic::div_mod::lemma_fundamental_div_mod_converse(2 * (d * k) + d, 2 * d, k, d);
}

/// `bg * fg` on fractions of 255.
pub open spec fn multiply_channel(bg: u8, fg: u8) -> u8 {
    round_div(bg * fg, 255) as u8
}

/// `1 - (1 - bg) * (1 - fg)` on fractions of 255.
pub open spec fn screen_channel(bg: u8, fg: u8) -> u8 {
    (255 - round_div((255 - bg) * (255 - fg), 255)) as u8
}

/// `bg * (1 - alpha) + fg * alpha` on fractions of 255.
pub open spec fn over_channel(bg: u8, fg: u8, alpha: u8) -> u8 {
    round_div(bg * (255 - alpha) + fg * alpha, 255) as u8
}

proof fn lemma_product_bound(x: int, y: int)
    requires
        0 <= x <= 255,
        0 <= y <= 255,
    ensures
        0 <= x * y <= 255 * 255,
{
    assert(0 <= x * y <= 255 * 255) by (nonlinear_arith)
        requires
            0 <= x <= 255,
            0 <= y <= 255,
    ;
}

pub fn blend_multiply(bg: u8, fg: u8) -> (out: u8)
    ensures
        out == multiply_channel(bg, fg),
{
    proof {
        lemma_product_bound(bg as int, fg as int);
    }
    let n: u32 = (bg as u32) * (fg as u32);
    ((2 * n + 255) / 510) as u8
}

pub fn blend_screen(bg: u8, fg: u8) -> (out: u8)
    ensures
        out == screen_channel(bg, fg),
{
    proof {
        lemma_product_bound(255 - bg, 255 - fg);
    }
    let n: u32 = ((255 - bg) as u32) * ((255 - fg) as u32);
    (255 - (2 * n + 255) / 510) as u8
}

pub fn blend_over(bg: u8, fg: u8, alpha: u8) -> (out: u8)
    ensures
        out == over_channel(bg, fg, alpha),
{
    proof {
        lemma_product_bound(bg as int, 255 - alpha);
        lemma_product_bound(fg as int, alpha as int);
        assert(bg * (255 - alpha) + fg * alpha <= 255 * 255) by (nonlinear_arith)
            requires
                0 <= bg <= 255,
                0 <= fg <= 255,
                0 <= alpha <= 255,
        ;
    }
    let n: u32 = (bg as u32) * ((255 - alpha) as u32) + (fg as u32) * (alpha as u32);
    ((2 * n + 255) / 510) as u8
}

/// A pixel format whose colors can be composited over a raw pixel.
pub trait Blend<T: InternalColorType>: ColorType<T> {
    /// The modes that the format defines.
    spec fn supports_spec(blend_mode: BlendMode) -> bool;

    spec fn blend_spec(&self, bg: T, blend_mode: BlendMode) -> T;

    fn supports(blend_mode: BlendMode) -> (b: bool)
        ensures
            b == Self::supports_spec(blend_mode),
    ;

    fn blend(&self, bg: T, blend_mode: BlendMode) -> (out: T)
        requires
            Self::supports_spec(blend_mode),
        ensures
            out == self.blend_spec(bg, blend_mode),
    ;

    /// Every format replaces: the result is the color's own raw value.
    proof fn lemma_override(self, bg: T)
        ensures
            Self::supports_spec(BlendMode::Override),
            self.blend_spec(bg, BlendMode::Override) == self.to_value_spec(),
    ;
}

impl Blend<u8> for A {
    open spec fn supports_spec(blend_mode: BlendMode) -> bool {
        true
    }

    open spec fn blend_spec(&self, bg: u8, blend_mode: BlendMode) -> u8 {
        match blend_mode {
            BlendMode::Override => self.a,
            BlendMode::Alpha => screen_channel(bg, self.a),
            BlendMode::Multiply => multiply_channel(bg, self.a),
            BlendMode::Screen => screen_channel(bg, self.a),
        }
    }

    fn supports(blend_mode: BlendMode) -> (b: bool) {
        true
    }

    fn blend(&self, bg: u8, blend_mode: BlendMode) -> (out: u8) {
        match blend_mode {
            BlendMode::Override => self.to_value(),
            BlendMode::Alpha => blend_screen(bg, self.a),
            BlendMode::Multiply => blend_multiply(bg, self.a),
            BlendMode::Screen => blend_screen(bg, self.a),
        }
    }

    proof fn lemma_override(self, bg: u8) {
    }
}

impl Blend<u8> for R {
    open spec fn supports_spec(blend_mode: BlendMode) -> bool {
        blend_mode != BlendMode::Alpha
    }

    open spec fn blend_spec(&self, bg: u8, blend_mode: BlendMode) -> u8 {
        match blend_mode {
            BlendMode::Override => self.r,
            BlendMode::Multiply => multiply_channel(bg, self.r),
            BlendMode::Screen => screen_channel(bg, self.r),
            BlendMode::Alpha => bg,
        }
    }

    fn supports(blend_mode: BlendMode) -> (b: bool) {
        match blend_mode {
            BlendMode::Alpha => false,
            _ => true,
        }
    }

    fn blend(&self, bg: u8, blend_mode: BlendMode) -> (out: u8) {
        match blend_mode {
            BlendMode::Override => self.to_value(),
            BlendMode::Multiply => blend_multiply(bg, self.r),
            BlendMode::Screen => blend_screen(bg, self.r),
            BlendMode::Alpha => bg,
        }
    }

    proof fn lemma_override(self, bg: u8) {
    }
}

impl Blend<u16> for RA {
    open spec fn supports_spec(blend_mode: BlendMode) -> bool {
        true
    }

    open spec fn blend_spec(&self, bg: u16, blend_mode: BlendMode) -> u16 {
        let bg_ext = RA::from_value_spec(bg);
        match blend_mode {
            BlendMode::Override => self.to_value_spec(),
            BlendMode::Alpha => (RA {
                r: over_channel(bg_ext.r, self.r, self.a),
                a: screen_channel(bg_ext.a, self.a),
            }).to_value_spec(),
            BlendMode::Multiply => (RA {
                r: multiply_channel(bg_ext.r, self.r),
                a: multiply_channel(bg_ext.a, self.a),
            }).to_value_spec(),
            BlendMode::Screen => (RA {
                r: screen_channel(bg_ext.r, self.r),
                a: screen_channel(bg_ext.a, self.a),
            }).to_value_spec(),
        }
    }

    fn supports(blend_mode: BlendMode) -> (b: bool) {
        true
    }

    fn blend(&self, bg: u16, blend_mode: BlendMode) -> (out: u16) {
        let bg_ext = RA::from_value(bg);
        match blend_mode {
            BlendMode::Override => self.to_value(),
            BlendMode::Alpha => {
                let ext = RA {
                    r: blend_over(bg_ext.r, self.r, self.a),
                    a: blend_screen(bg_ext.a, self.a),
                };
                ext.to_value()
            },
            BlendMode::Multiply => {
                let ext = RA {
                    r: blend_multiply(bg_ext.r, self.r),
                    a: blend_multiply(bg_ext.a, self.a),
                };
                ext.to_value()
            },
            BlendMode::Screen => {
                let ext = RA {
                    r: blend_screen(bg_ext.r, self.r),
                    a: blend_screen(bg_ext.a, self.a),
                };
                ext.to_value()
            },
        }
    }

    proof fn lemma_override(self, bg: u16) {
    }
}

impl Blend<u32> for RGB {
    open spec fn supports_spec(blend_mode: BlendMode) -> bool {
        blend_mode != BlendMode::Alpha
    }

    open spec fn blend_spec(&self, bg: u32, blend_mode: BlendMode) -> u32 {
        let bg_ext = RGB::from_value_spec(bg);
        match blend_mode {
            BlendMode::Override => self.to_value_spec(),
            BlendMode::Multiply => (RGB {
                r: multiply_channel(bg_ext.r, self.r),
                g: multiply_channel(bg_ext.g, self.g),
                b: multiply_channel(bg_ext.b, self.b),
            }).to_value_spec(),
            BlendMode::Screen => (RGB {
                r: screen_channel(bg_ext.r, self.r),
                g: screen_channel(bg_ext.g, self.g),
                b: screen_channel(bg_ext.b, self.b),
            }).to_value_spec(),
            BlendMode::Alpha => bg,
        }
    }

    fn supports(blend_mode: BlendMode) -> (b: bool) {
        match blend_mode {
            BlendMode::Alpha => false,
            _ => true,
        }
    }

    fn blend(&self, bg: u32, blend_mode: BlendMode) -> (out: u32) {
        let bg_ext = RGB::from_value(bg);
        match blend_mode {
            BlendMode::Override => self.to_value(),
            BlendMode::Multiply => {
                let ext = RGB {
                    r: blend_multiply(bg_ext.r, self.r),
                    g: blend_multiply(bg_ext.g, self.g),
                    b: blend_multiply(bg_ext.b, self.b),
                };
                ext.to_value()
            },
            BlendMode::Screen => {
                let ext = RGB {
                    r: blend_screen(bg_ext.r, self.r),
                    g: blend_screen(bg_ext.g, self.g),
                    b: blend_screen(bg_ext.b, self.b),
                };
                ext.to_value()
            },
            BlendMode::Alpha => bg,
        }
    }

    proof fn lemma_override(self, bg: u32) {
    }
}

impl Blend<u32> for RGBA {
    open spec fn supports_spec(blend_mode: BlendMode) -> bool {
        true
    }

    open spec fn blend_spec(&self, bg: u32, blend_mode: BlendMode) -> u32 {
        let bg_ext = RGBA::from_value_spec(bg);
        match blend_mode {
            BlendMode::Override => self.to_value_spec(),
            BlendMode::Alpha => (RGBA {
                r: over_channel(bg_ext.r, self.r, self.a),
                g: over_channel(bg_ext.g, self.g, self.a),
                b: over_channel(bg_ext.b, self.b, self.a),
                a: screen_channel(bg_ext.a, self.a),
            }).to_value_spec(),
            BlendMode::Multiply => (RGBA {
                r: multiply_channel(bg_ext.r, self.r),
                g: multiply_channel(bg_ext.g, self.g),
                b: multiply_channel(bg_ext.b, self.b),
                a: multiply_channel(bg_ext.a, self.a),
            }).to_value_spec(),
            BlendMode::Screen => (RGBA {
                r: screen_channel(bg_ext.r, self.r),
                g: screen_channel(bg_ext.g, self.g),
                b: screen_channel(bg_ext.b, self.b),
                a: screen_channel(bg_ext.a, self.a),
            }).to_value_spec(),
        }
    }

    fn supports(blend_mode: BlendMode) -> (b: bool) {
        true
    }

    fn blend(&self, bg: u32, blend_mode: BlendMode) -> (out: u32) {
        let bg_ext = RGBA::from_value(bg);
        match blend_mode {
            BlendMode::Override => self.to_value(),
            BlendMode::Alpha => {
                let ext = RGBA {
                    r: blend_over(bg_ext.r, self.r, self.a),
                    g: blend_over(bg_ext.g, self.g, self.a),
                    b: blend_over(bg_ext.b, self.b, self.a),
                    a: blend_screen(bg_ext.a, self.a),
                };
                ext.to_value()
            },
            BlendMode::Multiply => {
                let ext = RGBA {
                    r: blend_multiply(bg_ext.r, self.r),
                    g: blend_multiply(bg_ext.g, self.g),
                    b: blend_multiply(bg_ext.b, self.b),
                    a: blend_multiply(bg_ext.a, self.a),
                };
                ext.to_value()
            },
            BlendMode::Screen => {
                let ext = RGBA {
                    r: blend_screen(bg_ext.r, self.r),
                    g: blend_screen(bg_ext.g, self.g),
                    b: blend_screen(bg_ext.b, self.b),
                    a: blend_screen(bg_ext.a, self.a),
                };
                ext.to_value()
            },
        }
    }

    proof fn lemma_override(self, bg: u32) {
    }
}

/// With full alpha the color replaces the channel; with none the channel
/// stays. Screening with alpha does the same to the alpha channel.
pub proof fn lemma_alpha_ends(bg: u8, fg: u8)
    ensures
        over_channel(bg, fg, 255) == fg,
        over_channel(bg, fg, 0) == bg,
        screen_channel(bg, 255) == 255,
        screen_channel(bg, 0) == bg,
{
    assert(bg * (255 - 255) + fg * 255 == 255 * fg);
    lemma_round_div_multiple(fg as int, 255);
    lemma_round_div_multiple(bg as int, 255);
    lemma_round_div_multiple(255 - bg, 255);
    lemma_round_div_multiple(0, 255);
    assert(bg * (255 - 0) + fg * 0 == 255 * bg);
    assert((255 - bg) * (255 - 255) == 0);
    assert((255 - bg) * (255 - 0) == 255 * (255 - bg));
}

/// Replacing ignores the pixel: the result is the color's raw value.
pub proof fn lemma_blend_override<T: InternalColorType, C: Blend<T>>(bg: T, fg: C)
    ensures
        C::supports_spec(BlendMode::Override),
        fg.blend_spec(bg, BlendMode::Override) == fg.to_value_spec(),
{
    fg.lemma_override(bg);
}

/// An opaque alpha-only color replaces the pixel.
pub proof fn lemma_alpha_opaque_a(bg: u8, fg: A)
    requires
        fg.a == 255,
    ensures
        fg.blend_spec(bg, BlendMode::Alpha) == fg.blend_spec(bg, BlendMode::Override),
{
    lemma_alpha_ends(bg, fg.a);
}

/// A transparent alpha-only color leaves the pixel.
pub proof fn lemma_alpha_clear_a(bg: u8, fg: A)
    requires
        fg.a == 0,
    ensures
        fg.blend_spec(bg, BlendMode::Alpha) == bg,
{
    lemma_alpha_ends(bg, fg.a);
}

/// An opaque gray color replaces the pixel.
pub proof fn lemma_alpha_opaque_ra(bg: u16, fg: RA)
    requires
        fg.a == 255,
    ensures
        fg.blend_spec(bg, BlendMode::Alpha) == fg.blend_spec(bg, BlendMode::Override),
{
    let bg_ext = RA::from_value_spec(bg);
    lemma_alpha_ends(bg_ext.r, fg.r);
    lemma_alpha_ends(bg_ext.a, fg.a);
}

/// A transparent gray color leaves the pixel.
pub proof fn lemma_alpha_clear_ra(bg: u16, fg: RA)
    requires
        fg.a == 0,
    ensures
        fg.blend_spec(bg, BlendMode::Alpha) == bg,
{
    let bg_ext = RA::from_value_spec(bg);
    lemma_alpha_ends(bg_ext.r, fg.r);
    lemma_alpha_ends(bg_ext.a, fg.a);
    lemma_ra_unpack_pack(bg);
}

/// An opaque color replaces the pixel.
pub proof fn lemma_alpha_opaque_rgba(bg: u32, fg: RGBA)
    requires
        fg.a == 255,
    ensures
        fg.blend_spec(bg, BlendMode::Alpha) == fg.blend_spec(bg, BlendMode::Override),
{
    let bg_ext = RGBA::from_value_spec(bg);
    lemma_alpha_ends(bg_ext.r, fg.r);
    lemma_alpha_ends(bg_ext.g, fg.g);
    lemma_alpha_ends(bg_ext.b, fg.b);
    lemma_alpha_ends(bg_ext.a, fg.a);
}

/// A transparent color leaves the pixel.
pub proof fn lemma_alpha_clear_rgba(bg: u32, fg: RGBA)
    requires
        fg.a == 0,
    ensures
        fg.blend_spec(bg, BlendMode::Alpha) == bg,
{
    let bg_ext = RGBA::from_value_spec(bg);
    lemma_alpha_ends(bg_ext.r, fg.r);
    lemma_alpha_ends(bg_ext.g, fg.g);
    lemma_alpha_ends(bg_ext.b, fg.b);
    lemma_alpha_ends(bg_ext.a, fg.a);
    lemma_rgba_unpack_pack(bg);
}

} // verus!
