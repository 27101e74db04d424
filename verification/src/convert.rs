//! Canvases to and from PNG files held in memory.
//!
//! A file is a sequence of bytes. The codec turns it into a size, a color
//! type and one byte for each sample, and back; this module lays the samples
//! of a canvas out for the codec and reads a canvas from what the codec found.
use crate::types::{A, R, RA, RGB, RGBA};
use vstd::prelude::*;

verus! {

/// The gamma of the exported files, `1 / 2.2`, in units of `1 / 100000`.
pub const SOURCE_GAMMA: u32 = 45455;

/// The chromaticities of the exported files, in units of `1 / 100000`: the
/// white point and the red, green and blue primaries of sRGB, `x` before `y`.
pub const SOURCE_CHROMATICITIES: [u32; 8] = [31270, 32900, 64000, 33000, 30000, 60000, 15000, 6000];

/// The number of bits of each sample of the exported files.
pub const SAMPLE_DEPTH: u8 = 8;

/// How the samples of a pixel are laid out in a file.
#[derive(Debug, Clone, Copy, PartialEq, Eq, Structural)]
pub enum PngColor {
    Grayscale,
    Rgb,
    Indexed,
    GrayscaleAlpha,
    Rgba,
}

/// Why a canvas could not be written or read.
#[derive(Debug, Clone, Copy, PartialEq, Eq, Structural)]
pub enum PngError {
    /// The bytes are not a file that the codec reads.
    Decode,
    /// The codec does not write such an image.
    Encode,
    /// The file's color type has no place in the canvas's pixel format.
    IncompatibleColorType,
    /// The file holds fewer samples than its size asks for.
    DataTooShort,
    /// The canvas is larger than a file can say.
    TooLarge,
}

/// What the codec found in a file: its size, its color type, the number of
/// bits of each sample, and the bytes of its samples row by row. A canvas is
/// read from the bytes, one byte to the sample, whatever the depth says.
pub struct PngImage {
    pub width: u32,
    pub height: u32,
    pub color_type: PngColor,
    pub bit_depth: u8,
    pub data: Vec<u8>,
}

/// `png::DecodingError`: why the codec read no image. Nothing is claimed of
/// what it holds.
#[verifier::external_type_specification]
#[verifier::external_body]
pub struct ExDecodingError(png::DecodingError);

/// `png::EncodingError`: why the codec wrote no file. Nothing is claimed of
/// what it holds.
#[verifier::external_type_specification]
#[verifier::external_body]
pub struct ExEncodingError(png::EncodingError);

/// What the codec finds in a file: the width, the height, the code of the
/// color type, the number of bits of a sample and the bytes of the samples;
/// nothing where it reads no image.
pub uninterp spec fn png_decoding(bytes: Seq<u8>) -> Option<(u32, u32, u8, u8, Seq<u8>)>;

/// The file that the codec writes for an image of the given width, height,
/// color type code, number of bits of a sample, gamma, chromaticities and
/// samples; nothing where it writes none.
pub uninterp spec fn png_encoding(
    width: u32,
    height: u32,
    color: u8,
    depth: u8,
    gamma: u32,
    chroma: Seq<u32>,
    data: Seq<u8>,
) -> Option<Seq<u8>>;

/// `png::Decoder::new`, `Decoder::read_info` and `Reader::next_frame` on a
/// file held in memory: the first frame, cut to the size that the codec
/// reports for it. The contract claims only that what comes back is a
/// function of the bytes.
#[verifier::external_body]
fn decode_bytes(bytes: &[u8]) -> (r: Result<(u32, u32, u8, u8, Vec<u8>), png::DecodingError>)
    ensures
        match r {
            Ok(found) => png_decoding(bytes@) == Some(
                (found.0, found.1, found.2, found.3, found.4@),
            ),
            Err(_) => png_decoding(bytes@) is None,
        },
{
    let mut reader = png::Decoder::new(bytes).read_info()?;
    let mut buf = vec![0; reader.output_buffer_size()];
    let info = reader.next_frame(&mut buf)?;
    buf.truncate(info.buffer_size());
    Ok((info.width, info.height, info.color_type as u8, info.bit_depth as u8, buf))
}

/// `png::Encoder::new`, its setters for color, depth, gamma and
/// chromaticities, `Encoder::write_header` and `Writer::write_image_data`,
/// into memory. The contract claims only that what comes back is a function of
/// the arguments. It leaves out the color codes that the codec does not know,
/// and the depths other than whole bytes.
#[verifier::external_body]
fn encode_bytes(
    width: u32,
    height: u32,
    color: u8,
    depth: u8,
    gamma: u32,
    chroma: &[u32; 8],
    data: &[u8],
) -> (r: Result<Vec<u8>, png::EncodingError>)
    requires
        PngColor::from_code_spec(color) is Some,
        depth == 8 || depth == 16,
        data@.len() == width * height * PngColor::from_code_spec(color)->0.samples_spec() * (depth
            / 8),
    ensures
        match r {
            Ok(file) => png_encoding(width, height, color, depth, gamma, chroma@, data@) == Some(
                file@,
            ),
            Err(_) => png_encoding(width, height, color, depth, gamma, chroma@, data@) is None,
        },
{
    let mut out = Vec::new();
    let mut encoder = png::Encoder::new(&mut out, width, height);
    encoder.set_color(png::ColorType::from_u8(color).unwrap());
    encoder.set_depth(png::BitDepth::from_u8(depth).unwrap());
    encoder.set_source_gamma(png::ScaledFloat::from_scaled(gamma));
    let c = chroma.map(png::ScaledFloat::from_scaled);
    let (white, red, green, blue) = ((c[0], c[1]), (c[2], c[3]), (c[4], c[5]), (c[6], c[7]));
    encoder.set_source_chromaticities(png::SourceChromaticities { white, red, green, blue });
    encoder.write_header()?.write_image_data(data)?;
    Ok(out)
}

impl PngColor {
    /// The code of the color type in a file's header.
    pub open spec fn code_spec(self) -> u8 {
        match self {
            PngColor::Grayscale => 0,
            PngColor::Rgb => 2,
            PngColor::Indexed => 3,
            PngColor::GrayscaleAlpha => 4,
            PngColor::Rgba => 6,
        }
    }

    pub fn code(self) -> (c: u8)
        ensures
            c == self.code_spec(),
    {
        match self {
            PngColor::Grayscale => 0,
            PngColor::Rgb => 2,
            PngColor::Indexed => 3,
            PngColor::GrayscaleAlpha => 4,
            PngColor::Rgba => 6,
        }
    }

    /// The color type with the given code.
    pub open spec fn from_code_spec(code: u8) -> Option<PngColor> {
        if code == 0 {
            Some(PngColor::Grayscale)
        } else if code == 2 {
            Some(PngColor::Rgb)
        } else if code == 3 {
            Some(PngColor::Indexed)
        } else if code == 4 {
            Some(PngColor::GrayscaleAlpha)
        } else if code == 6 {
            Some(PngColor::Rgba)
        } else {
            None
        }
    }

    pub fn from_code(code: u8) -> (c: Option<PngColor>)
        ensures
            c == PngColor::from_code_spec(code),
    {
        if code == 0 {
            Some(PngColor::Grayscale)
        } else if code == 2 {
            Some(PngColor::Rgb)
        } else if code == 3 {
            Some(PngColor::Indexed)
        } else if code == 4 {
            Some(PngColor::GrayscaleAlpha)
        } else if code == 6 {
            Some(PngColor::Rgba)
        } else {
            None
        }
    }

    /// The number of samples of a pixel.
    pub open spec fn samples_spec(self) -> usize {
        match self {
            PngColor::Grayscale => 1,
            PngColor::Rgb => 3,
            PngColor::Indexed => 1,
            PngColor::GrayscaleAlpha => 2,
            PngColor::Rgba => 4,
        }
    }

    pub fn samples(self) -> (n: usize)
        ensures
            n == self.samples_spec(),
    {
        match self {
            PngColor::Grayscale => 1,
            PngColor::Rgb => 3,
            PngColor::Indexed => 1,
            PngColor::GrayscaleAlpha => 2,
            PngColor::Rgba => 4,
        }
    }
}

/// A pixel format that has a place in a file.
pub trait PngSamples: Sized {
    /// The color type that the format is written as.
    spec fn color_spec() -> PngColor;

    /// The samples of a color, in the order of the file.
    spec fn samples_spec(&self) -> Seq<u8>;

    /// Whether files of color type `color` have a place in the format.
    spec fn accepts_spec(color: PngColor) -> bool;

    /// The color that the samples `s[at..]` of a pixel stand for, in a file
    /// of a color type that has a place in the format. A missing color
    /// channel is 0 and a missing alpha channel is 255.
    spec fn from_samples_spec(color: PngColor, s: Seq<u8>, at: int) -> Self;

    fn color() -> (c: PngColor)
        ensures
            c == Self::color_spec(),
    ;

    fn push_samples(&self, out: &mut Vec<u8>)
        ensures
            final(out)@ == old(out)@ + self.samples_spec(),
            self.samples_spec().len() == Self::color_spec().samples_spec(),
    ;

    fn accepts(color: PngColor) -> (b: bool)
        ensures
            b == Self::accepts_spec(color),
    ;

    fn from_samples(color: PngColor, s: &[u8], at: usize) -> (c: Self)
        requires
            Self::accepts_spec(color),
            at + color.samples_spec() <= s@.len(),
        ensures
            c == Self::from_samples_spec(color, s@, at as int),
    ;
}

impl PngSamples for RGBA {
    open spec fn color_spec() -> PngColor {
        PngColor::Rgba
    }

    open spec fn samples_spec(&self) -> Seq<u8> {
        seq![self.r, self.g, self.b, self.a]
    }

    open spec fn accepts_spec(color: PngColor) -> bool {
        true
    }

    open spec fn from_samples_spec(color: PngColor, s: Seq<u8>, at: int) -> RGBA {
        match color {
            PngColor::Rgba => RGBA { r: s[at], g: s[at + 1], b: s[at + 2], a: s[at + 3] },
            PngColor::Rgb => RGBA { r: s[at], g: s[at + 1], b: s[at + 2], a: 255 },
            PngColor::Grayscale => RGBA { r: s[at], g: s[at], b: s[at], a: 255 },
            PngColor::Indexed => RGBA { r: 0, g: 0, b: 0, a: s[at] },
            PngColor::GrayscaleAlpha => RGBA { r: s[at], g: s[at], b: s[at], a: s[at + 1] },
        }
    }

    fn color() -> (c: PngColor) {
        PngColor::Rgba
    }

    fn push_samples(&self, out: &mut Vec<u8>) {
        out.push(self.r);
        out.push(self.g);
        out.push(self.b);
        out.push(self.a);
        assert(out@ =~= old(out)@ + self.samples_spec());
    }

    fn accepts(color: PngColor) -> (b: bool) {
        true
    }

    fn from_samples(color: PngColor, s: &[u8], at: usize) -> (c: RGBA) {
        match color {
            PngColor::Rgba => RGBA { r: s[at], g: s[at + 1], b: s[at + 2], a: s[at + 3] },
            PngColor::Rgb => RGBA { r: s[at], g: s[at + 1], b: s[at + 2], a: 255 },
            PngColor::Grayscale => RGBA { r: s[at], g: s[at], b: s[at], a: 255 },
            PngColor::Indexed => RGBA { r: 0, g: 0, b: 0, a: s[at] },
            PngColor::GrayscaleAlpha => RGBA { r: s[at], g: s[at], b: s[at], a: s[at + 1] },
        }
    }
}

impl PngSamples for RGB {
    open spec fn color_spec() -> PngColor {
        PngColor::Rgb
    }

    open spec fn samples_spec(&self) -> Seq<u8> {
        seq![self.r, self.g, self.b]
    }

    open spec fn accepts_spec(color: PngColor) -> bool {
        color == PngColor::Rgb || color == PngColor::Grayscale
    }

    open spec fn from_samples_spec(color: PngColor, s: Seq<u8>, at: int) -> RGB {
        match color {
            PngColor::Rgb => RGB { r: s[at], g: s[at + 1], b: s[at + 2] },
            _ => RGB { r: s[at], g: s[at], b: s[at] },
        }
    }

    fn color() -> (c: PngColor) {
        PngColor::Rgb
    }

    fn push_samples(&self, out: &mut Vec<u8>) {
        out.push(self.r);
        out.push(self.g);
        out.push(self.b);
        assert(out@ =~= old(out)@ + self.samples_spec());
    }

    fn accepts(color: PngColor) -> (b: bool) {
        match color {
            PngColor::Rgb => true,
            PngColor::Grayscale => true,
            _ => false,
        }
    }

    fn from_samples(color: PngColor, s: &[u8], at: usize) -> (c: RGB) {
        match color {
            PngColor::Rgb => RGB { r: s[at], g: s[at + 1], b: s[at + 2] },
            _ => RGB { r: s[at], g: s[at], b: s[at] },
        }
    }
}

impl PngSamples for RA {
    open spec fn color_spec() -> PngColor {
        PngColor::GrayscaleAlpha
    }

    open spec fn samples_spec(&self) -> Seq<u8> {
        seq![self.r, self.a]
    }

    open spec fn accepts_spec(color: PngColor) -> bool {
        color == PngColor::GrayscaleAlpha || color == PngColor::Grayscale || color
            == PngColor::Indexed
    }

    open spec fn from_samples_spec(color: PngColor, s: Seq<u8>, at: int) -> RA {
        match color {
            PngColor::GrayscaleAlpha => RA { r: s[at], a: s[at + 1] },
            PngColor::Indexed => RA { r: 0, a: s[at] },
            _ => RA { r: s[at], a: 255 },
        }
    }

    fn color() -> (c: PngColor) {
        PngColor::GrayscaleAlpha
    }

    fn push_samples(&self, out: &mut Vec<u8>) {
        out.push(self.r);
        out.push(self.a);
        assert(out@ =~= old(out)@ + self.samples_spec());
    }

    fn accepts(color: PngColor) -> (b: bool) {
        match color {
            PngColor::GrayscaleAlpha => true,
            PngColor::Grayscale => true,
            PngColor::Indexed => true,
            _ => false,
        }
    }

    fn from_samples(color: PngColor, s: &[u8], at: usize) -> (c: RA) {
        match color {
            PngColor::GrayscaleAlpha => RA { r: s[at], a: s[at + 1] },
            PngColor::Indexed => RA { r: 0, a: s[at] },
            _ => RA { r: s[at], a: 255 },
        }
    }
}

impl PngSamples for R {
    open spec fn color_spec() -> PngColor {
        PngColor::Grayscale
    }

    open spec fn samples_spec(&self) -> Seq<u8> {
        seq![self.r]
    }

    open spec fn accepts_spec(color: PngColor) -> bool {
        color == PngColor::Grayscale
    }

    open spec fn from_samples_spec(color: PngColor, s: Seq<u8>, at: int) -> R {
        R { r: s[at] }
    }

    fn color() -> (c: PngColor) {
        PngColor::Grayscale
    }

    fn push_samples(&self, out: &mut Vec<u8>) {
        out.push(self.r);
        assert(out@ =~= old(out)@ + self.samples_spec());
    }

    fn accepts(color: PngColor) -> (b: bool) {
        match color {
            PngColor::Grayscale => true,
            _ => false,
        }
    }

    fn from_samples(color: PngColor, s: &[u8], at: usize) -> (c: R) {
        R { r: s[at] }
    }
}

impl PngSamples for A {
    open spec fn color_spec() -> PngColor {
        PngColor::Indexed
    }

    open spec fn samples_spec(&self) -> Seq<u8> {
        seq![self.a]
    }

    open spec fn accepts_spec(color: PngColor) -> bool {
        color == PngColor::Indexed
    }

    open spec fn from_samples_spec(color: PngColor, s: Seq<u8>, at: int) -> A {
        A { a: s[at] }
    }

    fn color() -> (c: PngColor) {
        PngColor::Indexed
    }

    fn push_samples(&self, out: &mut Vec<u8>) {
        out.push(self.a);
        assert(out@ =~= old(out)@ + self.samples_spec());
    }

    fn accepts(color: PngColor) -> (b: bool) {
        match color {
            PngColor::Indexed => true,
            _ => false,
        }
    }

    fn from_samples(color: PngColor, s: &[u8], at: usize) -> (c: A) {
        A { a: s[at] }
    }
}

/// What becomes of a canvas when it is written: the file, or why there is
/// none.
pub open spec fn export_outcome(
    width: usize,
    height: usize,
    color: PngColor,
    data: Seq<u8>,
) -> Result<Seq<u8>, PngError> {
    if width > u32::MAX || height > u32::MAX {
        Err(PngError::TooLarge)
    } else {
        match png_encoding(
            width as u32,
            height as u32,
            color.code_spec(),
            SAMPLE_DEPTH,
            SOURCE_GAMMA,
            SOURCE_CHROMATICITIES@,
            data,
        ) {
            Some(file) => Ok(file),
            None => Err(PngError::Encode),
        }
    }
}

/// Writes the file of an image whose samples are `data`.
pub fn export_samples(width: usize, height: usize, color: PngColor, data: &Vec<u8>) -> (r: Result<
    Vec<u8>,
    PngError,
>)
    requires
        data@.len() == width * height * color.samples_spec(),
    ensures
        match r {
            Ok(file) => export_outcome(width, height, color, data@) == Ok::<Seq<u8>, PngError>(
                file@,
            ),
            Err(e) => export_outcome(width, height, color, data@) == Err::<Seq<u8>, PngError>(e),
        },
{
    if width > u32::MAX as usize || height > u32::MAX as usize {
        return Err(PngError::TooLarge);
    }
    let chroma = SOURCE_CHROMATICITIES;
    match encode_bytes(
        width as u32,
        height as u32,
        color.code(),
        SAMPLE_DEPTH,
        SOURCE_GAMMA,
        &chroma,
        data.as_slice(),
    ) {
        Ok(file) => Ok(file),
        Err(_) => Err(PngError::Encode),
    }
}

/// Reads the image that a file holds: what the codec finds in it, with the
/// color type told from its code.
pub open spec fn import_outcome(bytes: Seq<u8>) -> Option<(u32, u32, PngColor, u8, Seq<u8>)> {
    match png_decoding(bytes) {
        Some(found) => match PngColor::from_code_spec(found.2) {
            Some(color) => Some((found.0, found.1, color, found.3, found.4)),
            None => None,
        },
        None => None,
    }
}

/// Reads the image that a file holds.
pub fn import_image(bytes: &[u8]) -> (r: Result<PngImage, PngError>)
    ensures
        match r {
            Ok(img) => import_outcome(bytes@) == Some(
                (img.width, img.height, img.color_type, img.bit_depth, img.data@),
            ),
            Err(e) => import_outcome(bytes@) is None && e == PngError::Decode,
        },
{
    match decode_bytes(bytes) {
        Ok(found) => match PngColor::from_code(found.2) {
            Some(color_type) => Ok(
                PngImage {
                    width: found.0,
                    height: found.1,
                    color_type,
                    bit_depth: found.3,
                    data: found.4,
                },
            ),
            None => Err(PngError::Decode),
        },
        Err(_) => Err(PngError::Decode),
    }
}

/// A canvas that can be written to a file and read from one.
pub trait PNGCompatible: Sized {
    /// Whether the canvas is fit to be written.
    spec fn exportable(&self) -> bool;

    /// What becomes of the canvas when it is written.
    spec fn export_png_spec(&self) -> Result<Seq<u8>, PngError>;

    /// Whether `out` is what becomes of the bytes when they are read.
    spec fn from_png_spec(bytes: Seq<u8>, out: Result<Self, PngError>) -> bool;

    /// The file of the canvas.
    fn export_png(&self) -> (r: Result<Vec<u8>, PngError>)
        requires
            self.exportable(),
        ensures
            match r {
                Ok(file) => self.export_png_spec() == Ok::<Seq<u8>, PngError>(file@),
                Err(e) => self.export_png_spec() == Err::<Seq<u8>, PngError>(e),
            },
    ;

    /// The canvas that a file holds.
    fn from_png(bytes: &[u8]) -> (r: Result<Self, PngError>)
        ensures
            Self::from_png_spec(bytes@, r),
    ;
}

} // verus!
