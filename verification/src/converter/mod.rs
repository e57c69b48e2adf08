//! What the encoders share: the configuration of a run, the choice of the
//! encoder, and the bitmap that is handed to it.

pub mod avif;
pub mod mozjpeg;
pub mod png;
pub mod webp_image;

use vstd::prelude::*;
use vstd::slice::slice_to_vec;
use vstd::string::StringExecFns;

use crate::error::{Error, ErrorKind, ErrorView};
use crate::format::ImageFormat;
use crate::policy::Flags;

verus! {

/// Configuration parameters shared across all encoders.
#[derive(Clone, Debug)]
pub struct CommonConfig {
    /// Glob pattern to match images to convert.
    /// Example: `images/**/*.png`
    pub pattern: String,
    /// Output directory (flat) of processed images. Empty for the same
    /// location as the input images, with the new file extension.
    pub output: String,
    /// Overwrite the existing output file if the current conversion resulted
    /// in a smaller file.
    pub overwrite_if_smaller: bool,
    /// Overwrite existing outputs, as found by their file names?
    pub overwrite_existing: bool,
    /// Discards the encoding result if it is larger than the input file
    /// (does not create an output file).
    pub discard_if_larger_than_input: bool,
}

impl CommonConfig {
    /// The three switches of the conversion policy.
    pub fn flags(&self) -> (r: Flags)
        ensures
            r == (Flags {
                overwrite_if_smaller: self.overwrite_if_smaller,
                overwrite_existing: self.overwrite_existing,
                discard_if_larger_than_input: self.discard_if_larger_than_input,
            }),
    {
        Flags {
            overwrite_if_smaller: self.overwrite_if_smaller,
            overwrite_existing: self.overwrite_existing,
            discard_if_larger_than_input: self.discard_if_larger_than_input,
        }
    }
}

/// The encoders that there are.
#[derive(Clone, Copy, Debug, PartialEq, Eq, Structural)]
pub enum Encoder {
    /// Lossy or lossless WebP.
    Webp,
    /// Lossless WebP (VP8L).
    WebpImage,
    /// AVIF.
    Avif,
    /// PNG.
    Png,
    /// JPEG.
    Jpeg,
}

/// The encoder that writes `format`, if there is one.
pub open spec fn spec_encoder_for(format: ImageFormat) -> Option<Encoder> {
    match format {
        ImageFormat::Webp => Some(Encoder::Webp),
        ImageFormat::WebpImage => Some(Encoder::WebpImage),
        ImageFormat::Avif => Some(Encoder::Avif),
        ImageFormat::Png => Some(Encoder::Png),
        ImageFormat::Jpeg => Some(Encoder::Jpeg),
        _ => None,
    }
}

/// Picks the encoder for a target format. A format that nothing can write
/// is an `UnsupportedFormat` error; it is found here, before any file is
/// touched.
pub fn encoder_for(format: &ImageFormat) -> (r: Result<Encoder, Error>)
    ensures
        match spec_encoder_for(*format) {
            Some(encoder) => r == Ok::<Encoder, Error>(encoder),
            None => r matches Err(e) && e@ == (ErrorView {
                kind: ErrorKind::UnsupportedFormat,
                message: "Unsupported image format"@,
            }),
        },
{
    match format {
        ImageFormat::Webp => Ok(Encoder::Webp),
        ImageFormat::WebpImage => Ok(Encoder::WebpImage),
        ImageFormat::Avif => Ok(Encoder::Avif),
        ImageFormat::Png => Ok(Encoder::Png),
        ImageFormat::Jpeg => Ok(Encoder::Jpeg),
        _ => Err(
            Error::new(ErrorKind::UnsupportedFormat, String::from_str("Unsupported image format")),
        ),
    }
}

/// Whether to encode without loss: as chosen, and with loss where nothing
/// was chosen.
pub fn lossless_or_default(option_lossless: Option<bool>) -> (r: bool)
    ensures
        r == match option_lossless {
            Some(lossless) => lossless,
            None => false,
        },
{
    match option_lossless {
        Some(lossless) => lossless,
        None => false,
    }
}

/// The encoding speed, from 1 (slowest) to 10: as chosen, and 3 where
/// nothing was chosen.
pub fn speed_or_default(option_speed: Option<u8>) -> (r: u8)
    ensures
        r == match option_speed {
            Some(speed) => speed,
            None => 3u8,
        },
{
    match option_speed {
        Some(speed) => speed,
        None => 3,
    }
}

/// How the bytes of a bitmap make up its pixels.
#[derive(Clone, Copy, Debug, PartialEq, Eq, Structural)]
pub enum PixelLayout {
    /// Red, green and blue, one byte each.
    Rgb8,
    /// Red, green, blue and alpha, one byte each.
    Rgba8,
}

/// `image::ExtendedColorType`, the colour types that the encoders of the
/// `image` crate take. Nothing is claimed of it: Verus reads its variants
/// from the crate.
#[verifier::external_type_specification]
pub struct ExExtendedColorType(image::ExtendedColorType);

impl PixelLayout {
    /// The number of bytes of one pixel.
    pub open spec fn spec_channels(self) -> nat {
        match self {
            PixelLayout::Rgb8 => 3,
            PixelLayout::Rgba8 => 4,
        }
    }

    /// The layout for an image with or without transparency.
    pub fn for_alpha(has_alpha: bool) -> (r: PixelLayout)
        ensures
            r == if has_alpha {
                PixelLayout::Rgba8
            } else {
                PixelLayout::Rgb8
            },
    {
        if has_alpha {
            PixelLayout::Rgba8
        } else {
            PixelLayout::Rgb8
        }
    }

    /// The number of bytes of one pixel.
    pub fn channels(&self) -> (r: u8)
        ensures
            r == self.spec_channels(),
    {
        match self {
            PixelLayout::Rgb8 => 3,
            PixelLayout::Rgba8 => 4,
        }
    }

    /// The colour type by which the `image` crate knows the layout.
    pub open spec fn spec_color_type(self) -> image::ExtendedColorType {
        match self {
            PixelLayout::Rgb8 => image::ExtendedColorType::Rgb8,
            PixelLayout::Rgba8 => image::ExtendedColorType::Rgba8,
        }
    }

    /// The colour type by which the `image` crate knows the layout.
    pub fn color_type(&self) -> (r: image::ExtendedColorType)
        ensures
            r == self.spec_color_type(),
    {
        match self {
            PixelLayout::Rgb8 => image::ExtendedColorType::Rgb8,
            PixelLayout::Rgba8 => image::ExtendedColorType::Rgba8,
        }
    }
}

/// The bytes of RGB pixels with an alpha byte added to each pixel, which
/// makes the pixel opaque.
pub open spec fn spec_with_alpha(rgb: Seq<u8>) -> Seq<u8> {
    Seq::new(
        (rgb.len() / 3 * 4) as nat,
        |i: int|
            if i % 4 == 3 {
                255u8
            } else {
                rgb[i / 4 * 3 + i % 4]
            },
    )
}

/// What is known of a bitmap in contracts.
pub struct BitmapView {
    pub width: u32,
    pub height: u32,
    pub layout: PixelLayout,
    pub pixels: Seq<u8>,
}

impl BitmapView {
    /// Whether there are as many bytes as the pixels take.
    pub open spec fn fits(self) -> bool {
        self.pixels.len() == self.width * self.height * self.layout.spec_channels()
    }

    /// The same image with an alpha byte for every pixel.
    pub open spec fn spec_to_rgba8(self) -> BitmapView {
        BitmapView {
            width: self.width,
            height: self.height,
            layout: PixelLayout::Rgba8,
            pixels: match self.layout {
                PixelLayout::Rgba8 => self.pixels,
                PixelLayout::Rgb8 => spec_with_alpha(self.pixels),
            },
        }
    }
}

/// A decoded image: rows of pixels from top to bottom, each row from left to
/// right, with exactly the bytes that the pixels take.
#[derive(Debug)]
pub struct Bitmap {
    width: u32,
    height: u32,
    layout: PixelLayout,
    pixels: Vec<u8>,
}

impl View for Bitmap {
    type V = BitmapView;

    closed spec fn view(&self) -> BitmapView {
        BitmapView {
            width: self.width,
            height: self.height,
            layout: self.layout,
            pixels: self.pixels@,
        }
    }
}

impl Bitmap {
    #[verifier::type_invariant]
    spec fn well_formed(self) -> bool {
        self.pixels@.len() == self.width * self.height * self.layout.spec_channels()
    }

    /// Makes a bitmap of its size, its layout and its bytes. There is none
    /// where the number of bytes is not what the pixels take.
    pub fn new(width: u32, height: u32, layout: PixelLayout, pixels: Vec<u8>) -> (r: Option<
        Bitmap,
    >)
        ensures
            r is Some <==> (BitmapView { width, height, layout, pixels: pixels@ }).fits(),
            r matches Some(b) ==> b@ == (BitmapView { width, height, layout, pixels: pixels@ }),
    {
        let channels = layout.channels();
        assert(width * height <= 0xffff_ffff * 0xffff_ffff) by (nonlinear_arith)
            requires
                0 <= width <= 0xffff_ffff,
                0 <= height <= 0xffff_ffff,
        ;
        let area: u64 = (width as u64) * (height as u64);
        let needed: u128 = (area as u128) * (channels as u128);
        assert(needed == width * height * layout.spec_channels()) by (nonlinear_arith)
            requires
                needed == area * channels,
                area == width * height,
                channels == layout.spec_channels(),
        ;
        if pixels.len() as u128 == needed {
            Some(Bitmap { width, height, layout, pixels })
        } else {
            None
        }
    }

    /// The number of pixels in a row.
    pub fn width(&self) -> (r: u32)
        ensures
            r == self@.width,
    {
        self.width
    }

    /// The number of rows.
    pub fn height(&self) -> (r: u32)
        ensures
            r == self@.height,
    {
        self.height
    }

    /// How the bytes make up the pixels.
    pub fn layout(&self) -> (r: PixelLayout)
        ensures
            r == self@.layout,
    {
        self.layout
    }

    /// The same image in the RGBA layout: pixels without transparency get an
    /// alpha byte of 255.
    pub fn to_rgba8(&self) -> (r: Bitmap)
        ensures
            r@ == self@.spec_to_rgba8(),
    {
        proof {
            use_type_invariant(self);
        }
        match self.layout {
            PixelLayout::Rgba8 => Bitmap {
                width: self.width,
                height: self.height,
                layout: PixelLayout::Rgba8,
                pixels: slice_to_vec(self.pixels.as_slice()),
            },
            PixelLayout::Rgb8 => {
                let ghost rgb = self.pixels@;
                let ghost area = self.width * self.height;
                assert(rgb.len() == area * 3) by (nonlinear_arith)
                    requires
                        rgb.len() == self.width * self.height * 3,
                        area == self.width * self.height,
                ;
                let count = self.pixels.len() / 3;
                let mut pixels: Vec<u8> = Vec::new();
                let mut k: usize = 0;
                while k < count
                    invariant
                        k <= count,
                        count == area,
                        rgb == self.pixels@,
                        rgb.len() == count * 3,
                        rgb.len() <= usize::MAX,
                        pixels@ == spec_with_alpha(rgb).take(4 * k),
                    decreases count - k,
                {
                    let ghost all = spec_with_alpha(rgb);
                    let ghost before = pixels@;
                    pixels.push(self.pixels[3 * k]);
                    pixels.push(self.pixels[3 * k + 1]);
                    pixels.push(self.pixels[3 * k + 2]);
                    pixels.push(255);
                    proof {
                        assert(all.len() == count * 4);
                        assert(all[4 * k] == rgb[3 * k]);
                        assert(all[4 * k + 1] == rgb[3 * k + 1]);
                        assert(all[4 * k + 2] == rgb[3 * k + 2]);
                        assert(all[4 * k + 3] == 255u8);
                        assert(pixels@ =~= all.take(4 * (k + 1)));
                    }
                    k += 1;
                }
                proof {
                    let all = spec_with_alpha(rgb);
                    assert(all.take(all.len() as int) == all);
                    assert(pixels@.len() == self.width * self.height * 4) by (nonlinear_arith)
                        requires
                            pixels@.len() == area * 4,
                            area == self.width * self.height,
                    ;
                }
                Bitmap { width: self.width, height: self.height, layout: PixelLayout::Rgba8, pixels }
            },
        }
    }

    /// The bytes of the pixels.
    pub fn pixels(&self) -> (r: &[u8])
        ensures
            r@ == self@.pixels,
            self@.fits(),
    {
        proof {
            use_type_invariant(self);
        }
        self.pixels.as_slice()
    }
}

/// What an encoder gave, in contracts: the bytes of the file, or the text of
/// the failure.
pub open spec fn encoder_answer(outcome: Result<Vec<u8>, String>) -> Result<Seq<u8>, Seq<char>> {
    match outcome {
        Ok(bytes) => Ok(bytes@),
        Err(text) => Err(text@),
    }
}

/// Turns what an encoder gave into the result of the encoding: the bytes, or
/// an `Encode` error that carries the text of the failure.
pub fn encoded_or_error(outcome: Result<Vec<u8>, String>) -> (r: Result<Vec<u8>, Error>)
    ensures
        match outcome {
            Ok(bytes) => r == Ok::<Vec<u8>, Error>(bytes),
            Err(text) => r matches Err(e) && e@ == (ErrorView {
                kind: ErrorKind::Encode,
                message: text@,
            }),
        },
{
    match outcome {
        Ok(bytes) => Ok(bytes),
        Err(text) => Err(Error::new(ErrorKind::Encode, text)),
    }
}

} // verus!
