//! Pixel formats: how a color is packed into a raw pixel value, and how it
//! maps to four normalized channels.
use crate::linalg::{vec4, BVec, Vec4};
use crate::scalar::{Scalar, ONE_RAW};
use vstd::prelude::*;
use vstd::std_specs::ops::{AddSpec, MulSpec};

pub mod blend;

verus! {

broadcast use vstd::array::group_array_axioms;

/// An unsigned integer that holds one packed pixel.
pub trait InternalColorType: Sync + Send + Copy {
    spec fn zero_spec() -> Self;

    fn zero() -> (z: Self)
        ensures
            z == Self::zero_spec(),
    ;
}

impl InternalColorType for u8 {
    open spec fn zero_spec() -> u8 {
        0
    }

    fn zero() -> (z: u8) {
        0
    }
}

impl InternalColorType for u16 {
    open spec fn zero_spec() -> u16 {
        0
    }

    fn zero() -> (z: u16) {
        0
    }
}

impl InternalColorType for u32 {
    open spec fn zero_spec() -> u32 {
        0
    }

    fn zero() -> (z: u32) {
        0
    }
}

/// A pixel format over the raw type `T`.
pub trait ColorType<T: InternalColorType>: Copy {
    spec fn from_value_spec(raw: T) -> Self;

    spec fn to_value_spec(&self) -> T;

    spec fn from_vec4_spec(raw: Vec4) -> Self;

    spec fn to_vec4_spec(&self) -> Vec4;

    fn from_value(raw: T) -> (c: Self)
        ensures
            c == Self::from_value_spec(raw),
    ;

    fn to_value(&self) -> (raw: T)
        ensures
            raw == self.to_value_spec(),
    ;

    fn from_vec4(raw: Vec4) -> (c: Self)
        ensures
            c == Self::from_vec4_spec(raw),
    ;

    fn to_vec4(&self) -> (v: Vec4)
        ensures
            v == self.to_vec4_spec(),
    ;

    /// Packing a color and unpacking it gives the color back.
    proof fn lemma_value_round_trip(self)
        ensures
            Self::from_value_spec(self.to_value_spec()) == self,
    ;

    /// Normalizing a color and quantizing it gives the color back.
    proof fn lemma_vec4_round_trip(self)
        ensures
            Self::from_vec4_spec(self.to_vec4_spec()) == self,
    ;
}

/// An 8-bit channel as a number in `[0, 1]`: `c / 255`, rounded down.
pub open spec fn unit_of(c: u8) -> Scalar {
    Scalar::from_ratio_spec(c as usize, 255)
}

/// A number as an 8-bit channel: `255 * s` rounded to the nearest integer and
/// brought into `[0, 255]`.
pub open spec fn channel_of(s: Scalar) -> u8 {
    let n = s.mul_spec(Scalar::from_index_spec(255)).round_index_spec();
    if n > 255 {
        255u8
    } else {
        n as u8
    }
}

/// The gray level of three color channels: `85 * (x + y + z)` rounded to the
/// nearest integer and brought into `[0, 255]`.
pub open spec fn gray_of(x: Scalar, y: Scalar, z: Scalar) -> u8 {
    let n = x.add_spec(y).add_spec(z).mul_spec(Scalar::from_index_spec(85)).round_index_spec();
    if n > 255 {
        255u8
    } else {
        n as u8
    }
}

pub fn channel_to_unit(c: u8) -> (s: Scalar)
    ensures
        s == unit_of(c),
        0 <= s.raw <= ONE_RAW,
{
    Scalar::from_ratio(c as usize, 255)
}

pub fn unit_to_channel(s: Scalar) -> (c: u8)
    ensures
        c == channel_of(s),
{
    let n = (s * Scalar::from_index(255)).round_index();
    if n > 255 {
        255
    } else {
        n as u8
    }
}

pub fn units_to_gray(x: Scalar, y: Scalar, z: Scalar) -> (c: u8)
    ensures
        c == gray_of(x, y, z),
{
    let n = ((x + y + z) * Scalar::from_index(85)).round_index();
    if n > 255 {
        255
    } else {
        n as u8
    }
}

/// A channel survives normalizing and quantizing.
pub proof fn lemma_channel_round_trip(c: u8)
    ensures
        channel_of(unit_of(c)) == c,
        gray_of(unit_of(c), unit_of(c), unit_of(c)) == c,
        unit_of(0) == Scalar::zero_spec(),
        unit_of(255) == Scalar::one_spec(),
{
    let u: int = (c * 0x1_0000_0000) / 255;
    assert(unit_of(c).raw == u);
    let scaled: int = (u * (255 * 0x1_0000_0000)) / 0x1_0000_0000;
    assert(scaled == 255 * u) by {
        assert(u * (255 * 0x1_0000_0000) == (255 * u) * 0x1_0000_0000) by (nonlinear_arith);
        vstd::arithmetic::div_mod::lemma_div_by_multiple(255 * u, 0x1_0000_0000);
    }
    assert(unit_of(c).mul_spec(Scalar::from_index_spec(255)).raw == scaled);
    assert((scaled + 0x8000_0000) / 0x1_0000_0000 == c);
    let tripled: int = ((3 * u) * (85 * 0x1_0000_0000)) / 0x1_0000_0000;
    assert(tripled == 255 * u) by {
        assert((3 * u) * (85 * 0x1_0000_0000) == (255 * u) * 0x1_0000_0000) by (nonlinear_arith);
        vstd::arithmetic::div_mod::lemma_div_by_multiple(255 * u, 0x1_0000_0000);
    }
    assert(unit_of(c).add_spec(unit_of(c)).raw == 2 * u);
    assert(unit_of(c).add_spec(unit_of(c)).add_spec(unit_of(c)).raw == 3 * u);
    assert(unit_of(c).add_spec(unit_of(c)).add_spec(unit_of(c)).mul_spec(
        Scalar::from_index_spec(85),
    ).raw == tripled);
}

/// A number in `[0, 1]` survives quantizing and normalizing to within half a
/// step of the 255 steps of a channel.
pub proof fn lemma_unit_round_trip(s: Scalar)
    requires
        0 <= s.raw <= ONE_RAW,
    ensures
        -0x8000_0000 - 255 < 255 * (unit_of(channel_of(s)).raw - s.raw) <= 0x8000_0000,
{
    let r = s.raw as int;
    let scaled: int = (r * (255 * 0x1_0000_0000)) / 0x1_0000_0000;
    assert(scaled == 255 * r) by {
        assert(r * (255 * 0x1_0000_0000) == (255 * r) * 0x1_0000_0000) by (nonlinear_arith);
        vstd::arithmetic::div_mod::lemma_div_by_multiple(255 * r, 0x1_0000_0000);
    }
    assert(s.mul_spec(Scalar::from_index_spec(255)).raw == scaled);
    let c: int = (scaled + 0x8000_0000) / 0x1_0000_0000;
    assert(0 <= c <= 255);
    assert(channel_of(s) == c);
    let u: int = (c * 0x1_0000_0000) / 255;
    assert(unit_of(channel_of(s)).raw == u);
}

/// Alpha only.
#[derive(Debug, Clone, Copy, Eq, PartialEq, Structural)]
pub struct A {
    pub a: u8,
}

/// Gray.
#[derive(Debug, Clone, Copy, Eq, PartialEq, Structural)]
pub struct R {
    pub r: u8,
}

/// Gray and alpha.
#[derive(Debug, Clone, Copy, Eq, PartialEq, Structural)]
pub struct RA {
    pub r: u8,
    pub a: u8,
}

/// Red, green and blue.
#[derive(Debug, Clone, Copy, Eq, PartialEq, Structural)]
pub struct RGB {
    pub r: u8,
    pub g: u8,
    pub b: u8,
}

/// Red, green, blue and alpha.
#[derive(Debug, Clone, Copy, Eq, PartialEq, Structural)]
pub struct RGBA {
    pub r: u8,
    pub g: u8,
    pub b: u8,
    pub a: u8,
}

/// The raw value is the alpha channel.
impl ColorType<u8> for A {
    open spec fn from_value_spec(raw: u8) -> A {
        A { a: raw }
    }

    open spec fn to_value_spec(&self) -> u8 {
        self.a
    }

    open spec fn from_vec4_spec(raw: Vec4) -> A {
        A { a: channel_of(raw@[3]) }
    }

    open spec fn to_vec4_spec(&self) -> Vec4 {
        vec4(Scalar::zero_spec(), Scalar::zero_spec(), Scalar::zero_spec(), unit_of(self.a))
    }

    fn from_value(raw: u8) -> (c: A) {
        A { a: raw }
    }

    fn to_value(&self) -> (raw: u8) {
        self.a
    }

    fn from_vec4(raw: Vec4) -> (c: A) {
        A { a: unit_to_channel(raw.w()) }
    }

    fn to_vec4(&self) -> (v: Vec4) {
        BVec::<4>::new(Scalar::zero(), Scalar::zero(), Scalar::zero(), channel_to_unit(self.a))
    }

    proof fn lemma_value_round_trip(self) {
    }

    proof fn lemma_vec4_round_trip(self) {
        lemma_channel_round_trip(self.a);
    }
}

/// The raw value is the gray level.
impl ColorType<u8> for R {
    open spec fn from_value_spec(raw: u8) -> R {
        R { r: raw }
    }

    open spec fn to_value_spec(&self) -> u8 {
        self.r
    }

    open spec fn from_vec4_spec(raw: Vec4) -> R {
        R { r: gray_of(raw@[0], raw@[1], raw@[2]) }
    }

    open spec fn to_vec4_spec(&self) -> Vec4 {
        vec4(unit_of(self.r), unit_of(self.r), unit_of(self.r), Scalar::one_spec())
    }

    fn from_value(raw: u8) -> (c: R) {
        R { r: raw }
    }

    fn to_value(&self) -> (raw: u8) {
        self.r
    }

    fn from_vec4(raw: Vec4) -> (c: R) {
        R { r: units_to_gray(raw.x(), raw.y(), raw.z()) }
    }

    fn to_vec4(&self) -> (v: Vec4) {
        let level = channel_to_unit(self.r);
        BVec::<4>::new(level, level, level, Scalar::one())
    }

    proof fn lemma_value_round_trip(self) {
    }

    proof fn lemma_vec4_round_trip(self) {
        lemma_channel_round_trip(self.r);
    }
}

/// The raw value is `256 * r + a`.
impl ColorType<u16> for RA {
    open spec fn from_value_spec(raw: u16) -> RA {
        RA { r: (raw / 256) as u8, a: (raw % 256) as u8 }
    }

    open spec fn to_value_spec(&self) -> u16 {
        (256 * self.r + self.a) as u16
    }

    open spec fn from_vec4_spec(raw: Vec4) -> RA {
        RA { r: gray_of(raw@[0], raw@[1], raw@[2]), a: channel_of(raw@[3]) }
    }

    open spec fn to_vec4_spec(&self) -> Vec4 {
        vec4(unit_of(self.r), unit_of(self.r), unit_of(self.r), unit_of(self.a))
    }

    fn from_value(raw: u16) -> (c: RA) {
        assert((raw >> 8) & 0xff == raw / 256) by (bit_vector);
        assert(raw & 0xff == raw % 256) by (bit_vector);
        RA { r: ((raw >> 8) & 0xff) as u8, a: (raw & 0xff) as u8 }
    }

    fn to_value(&self) -> (raw: u16) {
        let r: u16 = self.r as u16;
        let a: u16 = self.a as u16;
        assert(a | (r << 8) == 256 * r + a) by (bit_vector)
            requires
                r < 256,
                a < 256,
        ;
        a | (r << 8)
    }

    fn from_vec4(raw: Vec4) -> (c: RA) {
        RA { r: units_to_gray(raw.x(), raw.y(), raw.z()), a: unit_to_channel(raw.w()) }
    }

    fn to_vec4(&self) -> (v: Vec4) {
        let level = channel_to_unit(self.r);
        BVec::<4>::new(level, level, level, channel_to_unit(self.a))
    }

    proof fn lemma_value_round_trip(self) {
    }

    proof fn lemma_vec4_round_trip(self) {
        lemma_channel_round_trip(self.r);
        lemma_channel_round_trip(self.a);
    }
}

/// The raw value is `2^24 * b + 2^16 * g + 2^8 * r`; its low byte is unused.
impl ColorType<u32> for RGB {
    open spec fn from_value_spec(raw: u32) -> RGB {
        RGB {
            r: ((raw / 0x100) % 256) as u8,
            g: ((raw / 0x1_0000) % 256) as u8,
            b: ((raw / 0x100_0000) % 256) as u8,
        }
    }

    open spec fn to_value_spec(&self) -> u32 {
        (0x100_0000 * self.b + 0x1_0000 * self.g + 0x100 * self.r) as u32
    }

    open spec fn from_vec4_spec(raw: Vec4) -> RGB {
        RGB { r: channel_of(raw@[0]), g: channel_of(raw@[1]), b: channel_of(raw@[2]) }
    }

    open spec fn to_vec4_spec(&self) -> Vec4 {
        vec4(unit_of(self.r), unit_of(self.g), unit_of(self.b), Scalar::one_spec())
    }

    fn from_value(raw: u32) -> (c: RGB) {
        assert((raw >> 8) & 0xff == (raw / 0x100) % 256) by (bit_vector);
        assert((raw >> 16) & 0xff == (raw / 0x1_0000) % 256) by (bit_vector);
        assert((raw >> 24) & 0xff == (raw / 0x100_0000) % 256) by (bit_vector);
        RGB {
            r: ((raw >> 8) & 0xff) as u8,
            g: ((raw >> 16) & 0xff) as u8,
            b: ((raw >> 24) & 0xff) as u8,
        }
    }

    fn to_value(&self) -> (raw: u32) {
        let r: u32 = self.r as u32;
        let g: u32 = self.g as u32;
        let b: u32 = self.b as u32;
        assert((r << 8) | (g << 16) | (b << 24) == 0x100_0000 * b + 0x1_0000 * g + 0x100 * r)
            by (bit_vector)
            requires
                r < 256,
                g < 256,
                b < 256,
        ;
        (r << 8) | (g << 16) | (b << 24)
    }

    fn from_vec4(raw: Vec4) -> (c: RGB) {
        RGB {
            r: unit_to_channel(raw.x()),
            g: unit_to_channel(raw.y()),
            b: unit_to_channel(raw.z()),
        }
    }

    fn to_vec4(&self) -> (v: Vec4) {
        BVec::<4>::new(
            channel_to_unit(self.r),
            channel_to_unit(self.g),
            channel_to_unit(self.b),
            Scalar::one(),
        )
    }

    proof fn lemma_value_round_trip(self) {
        let r: u32 = self.r as u32;
        let g: u32 = self.g as u32;
        let b: u32 = self.b as u32;
        let raw: u32 = (0x100_0000 * b + 0x1_0000 * g + 0x100 * r) as u32;
        assert((raw / 0x100) % 256 == r && (raw / 0x1_0000) % 256 == g && (raw / 0x100_0000)
            % 256 == b) by (bit_vector)
            requires
                r < 256,
                g < 256,
                b < 256,
                raw == 0x100_0000 * b + 0x1_0000 * g + 0x100 * r,
        ;
    }

    proof fn lemma_vec4_round_trip(self) {
        lemma_channel_round_trip(self.r);
        lemma_channel_round_trip(self.g);
        lemma_channel_round_trip(self.b);
    }
}

/// The raw value is `2^24 * b + 2^16 * g + 2^8 * r + a`.
impl ColorType<u32> for RGBA {
    open spec fn from_value_spec(raw: u32) -> RGBA {
        RGBA {
            r: ((raw / 0x100) % 256) as u8,
            g: ((raw / 0x1_0000) % 256) as u8,
            b: ((raw / 0x100_0000) % 256) as u8,
            a: (raw % 256) as u8,
        }
    }

    open spec fn to_value_spec(&self) -> u32 {
        (0x100_0000 * self.b + 0x1_0000 * self.g + 0x100 * self.r + self.a) as u32
    }

    open spec fn from_vec4_spec(raw: Vec4) -> RGBA {
        RGBA {
            r: channel_of(raw@[0]),
            g: channel_of(raw@[1]),
            b: channel_of(raw@[2]),
            a: channel_of(raw@[3]),
        }
    }

    open spec fn to_vec4_spec(&self) -> Vec4 {
        vec4(unit_of(self.r), unit_of(self.g), unit_of(self.b), unit_of(self.a))
    }

    fn from_value(raw: u32) -> (c: RGBA) {
        assert((raw >> 8) & 0xff == (raw / 0x100) % 256) by (bit_vector);
        assert((raw >> 16) & 0xff == (raw / 0x1_0000) % 256) by (bit_vector);
        assert((raw >> 24) & 0xff == (raw / 0x100_0000) % 256) by (bit_vector);
        assert(raw & 0xff == raw % 256) by (bit_vector);
        RGBA {
            a: (raw & 0xff) as u8,
            r: ((raw >> 8) & 0xff) as u8,
            g: ((raw >> 16) & 0xff) as u8,
            b: ((raw >> 24) & 0xff) as u8,
        }
    }

    fn to_value(&self) -> (raw: u32) {
        let r: u32 = self.r as u32;
        let g: u32 = self.g as u32;
        let b: u32 = self.b as u32;
        let a: u32 = self.a as u32;
        assert(a | (r << 8) | (g << 16) | (b << 24) == 0x100_0000 * b + 0x1_0000 * g + 0x100
            * r + a) by (bit_vector)
            requires
                r < 256,
                g < 256,
                b < 256,
                a < 256,
        ;
        a | (r << 8) | (g << 16) | (b << 24)
    }

    fn from_vec4(raw: Vec4) -> (c: RGBA) {
        RGBA {
            r: unit_to_channel(raw.x()),
            g: unit_to_channel(raw.y()),
            b: unit_to_channel(raw.z()),
            a: unit_to_channel(raw.w()),
        }
    }

    fn to_vec4(&self) -> (v: Vec4) {
        BVec::<4>::new(
            channel_to_unit(self.r),
            channel_to_unit(self.g),
            channel_to_unit(self.b),
            channel_to_unit(self.a),
        )
    }

    proof fn lemma_value_round_trip(self) {
        let r: u32 = self.r as u32;
        let g: u32 = self.g as u32;
        let b: u32 = self.b as u32;
        let a: u32 = self.a as u32;
        let raw: u32 = (0x100_0000 * b + 0x1_0000 * g + 0x100 * r + a) as u32;
        assert((raw / 0x100) % 256 == r && (raw / 0x1_0000) % 256 == g && (raw / 0x100_0000)
            % 256 == b && raw % 256 == a) by (bit_vector)
            requires
                r < 256,
                g < 256,
                b < 256,
                a < 256,
                raw == 0x100_0000 * b + 0x1_0000 * g + 0x100 * r + a,
        ;
    }

    proof fn lemma_vec4_round_trip(self) {
        lemma_channel_round_trip(self.r);
        lemma_channel_round_trip(self.g);
        lemma_channel_round_trip(self.b);
        lemma_channel_round_trip(self.a);
    }
}

/// Every 16-bit raw value is the packing of the color it unpacks to.
pub proof fn lemma_ra_unpack_pack(raw: u16)
    ensures
        RA::from_value_spec(raw).to_value_spec() == raw,
{
}

/// Every 32-bit raw value is the packing of the color with alpha it unpacks
/// to.
pub proof fn lemma_rgba_unpack_pack(raw: u32)
    ensures
        RGBA::from_value_spec(raw).to_value_spec() == raw,
{
    assert(0x100_0000 * ((raw / 0x100_0000) % 256) + 0x1_0000 * ((raw / 0x1_0000) % 256) + 0x100
        * ((raw / 0x100) % 256) + raw % 256 == raw) by (bit_vector);
}

} // verus!
