//! The samples of a canvas, and the canvas that samples stand for.
use crate::canvas::BezierCanvas;
use crate::convert::{
    export_outcome, export_samples, import_image, import_outcome, PNGCompatible, PngColor,
    PngError, PngImage, PngSamples,
};
use crate::types::{ColorType, InternalColorType};
use std::marker::PhantomData;
use vstd::prelude::*;

verus! {

impl<InternalType: InternalColorType, ExternalType: ColorType<InternalType> + PngSamples> BezierCanvas<
    InternalType,
    ExternalType,
> {
    /// The samples of the first `k` pixels, pixel after pixel.
    pub open spec fn png_data_spec(&self, k: nat) -> Seq<u8>
        decreases k,
    {
        if k == 0 {
            Seq::empty()
        } else {
            self.png_data_spec((k - 1) as nat) + ExternalType::from_value_spec(
                self@[k - 1],
            ).samples_spec()
        }
    }

    /// The samples of the canvas, as a file of its color type holds them.
    pub fn png_data(&self) -> (data: Vec<u8>)
        requires
            self.wf(),
        ensures
            data@ == self.png_data_spec(self@.len()),
            data@.len() == self.width() * self.height() * ExternalType::color_spec().samples_spec(),
    {
        let n: usize = self.pixels.len();
        let ghost per = ExternalType::color_spec().samples_spec() as int;
        let mut data: Vec<u8> = Vec::new();
        let mut k: usize = 0;
        while k < n
            invariant
                k <= n,
                n == self@.len(),
                per == ExternalType::color_spec().samples_spec(),
                data@ == self.png_data_spec(k as nat),
                data@.len() == k * per,
            decreases n - k,
        {
            let color = ExternalType::from_value(self.pixels[k]);
            color.push_samples(&mut data);
            assert((k + 1) * per == k * per + per) by (nonlinear_arith);
            k += 1;
        }
        data
    }

    /// Why an image cannot be read into a canvas of this format, if it
    /// cannot.
    pub open spec fn image_error(
        width: u32,
        height: u32,
        color: PngColor,
        data: Seq<u8>,
    ) -> Option<PngError> {
        if !ExternalType::accepts_spec(color) {
            Some(PngError::IncompatibleColorType)
        } else if data.len() < width * height * color.samples_spec() {
            Some(PngError::DataTooShort)
        } else {
            None
        }
    }

    /// Whether the canvas holds the image: it has the image's size, and
    /// each pixel is the color that the pixel's samples stand for.
    pub open spec fn holds_image(&self, width: u32, height: u32, color: PngColor, data: Seq<u8>) -> bool {
        &&& self.wf()
        &&& self.width() == width
        &&& self.height() == height
        &&& forall|i: int|
            0 <= i < width * height ==> #[trigger] self@[i] == ExternalType::from_samples_spec(
                color,
                data,
                i * color.samples_spec(),
            ).to_value_spec()
    }

    /// What reading an image gives: the canvas that holds it, or why there
    /// is none.
    pub open spec fn image_outcome(
        width: u32,
        height: u32,
        color: PngColor,
        data: Seq<u8>,
        out: Result<Self, PngError>,
    ) -> bool {
        match out {
            Ok(canvas) => Self::image_error(width, height, color, data) is None
                && canvas.holds_image(width, height, color, data),
            Err(e) => Self::image_error(width, height, color, data) == Some(e),
        }
    }

    /// The canvas that holds an image. The bytes of the image are taken one
    /// to the sample; the depth that the image reports is not consulted.
    pub fn from_image(img: &PngImage) -> (r: Result<Self, PngError>)
        ensures
            Self::image_outcome(img.width, img.height, img.color_type, img.data@, r),
    {
        if !ExternalType::accepts(img.color_type) {
            return Err(PngError::IncompatibleColorType);
        }
        let per: usize = img.color_type.samples();
        assert(img.width * img.height <= 0xffff_ffff * 0xffff_ffff) by (nonlinear_arith)
            requires
                0 <= img.width <= 0xffff_ffff,
                0 <= img.height <= 0xffff_ffff,
        ;
        let pixels_wide: u64 = (img.width as u64) * (img.height as u64);
        let needed: u128 = (pixels_wide as u128) * (per as u128);
        assert(needed == img.width * img.height * per) by (nonlinear_arith)
            requires
                pixels_wide == img.width * img.height,
                needed == pixels_wide * per,
        ;
        if (img.data.len() as u128) < needed {
            return Err(PngError::DataTooShort);
        }
        assert(pixels_wide <= needed) by (nonlinear_arith)
            requires
                needed == pixels_wide * per,
                1 <= per,
                0 <= pixels_wide,
        ;
        let n: usize = pixels_wide as usize;
        let mut pixels: Vec<InternalType> = Vec::new();
        let mut i: usize = 0;
        while i < n
            invariant
                i <= n,
                n == img.width * img.height,
                per == img.color_type.samples_spec(),
                1 <= per <= 4,
                n * per <= img.data@.len() <= usize::MAX,
                ExternalType::accepts_spec(img.color_type),
                pixels@.len() == i,
                forall|j: int|
                    0 <= j < i ==> #[trigger] pixels@[j] == ExternalType::from_samples_spec(
                        img.color_type,
                        img.data@,
                        j * per,
                    ).to_value_spec(),
            decreases n - i,
        {
            assert(0 <= i * per && i * per + per <= n * per) by (nonlinear_arith)
                requires
                    0 <= i < n,
                    1 <= per,
            ;
            let color = ExternalType::from_samples(img.color_type, img.data.as_slice(), i * per);
            pixels.push(color.to_value());
            i += 1;
        }
        let canvas = BezierCanvas {
            width: img.width as usize,
            height: img.height as usize,
            pixels,
            external_type: PhantomData,
        };
        Ok(canvas)
    }
}

impl<
    InternalType: InternalColorType,
    ExternalType: ColorType<InternalType> + PngSamples,
> PNGCompatible for BezierCanvas<InternalType, ExternalType> {
    open spec fn exportable(&self) -> bool {
        self.wf()
    }

    open spec fn export_png_spec(&self) -> Result<Seq<u8>, PngError> {
        export_outcome(
            self.width(),
            self.height(),
            ExternalType::color_spec(),
            self.png_data_spec(self@.len()),
        )
    }

    open spec fn from_png_spec(bytes: Seq<u8>, out: Result<Self, PngError>) -> bool {
        match import_outcome(bytes) {
            None => out == Err::<Self, PngError>(PngError::Decode),
            Some(found) => Self::image_outcome(found.0, found.1, found.2, found.4, out),
        }
    }

    fn export_png(&self) -> (r: Result<Vec<u8>, PngError>) {
        let data = self.png_data();
        export_samples(self.width, self.height, ExternalType::color(), &data)
    }

    fn from_png(bytes: &[u8]) -> (r: Result<Self, PngError>) {
        match import_image(bytes) {
            Ok(img) => Self::from_image(&img),
            Err(e) => Err(e),
        }
    }
}

} // verus!
