//! Lossless WebP output by the encoder of the `image` crate.

use vstd::prelude::*;
use vstd::string::StringExecFns;

use crate::converter::{encoded_or_error, encoder_answer, Bitmap};
use crate::error::{Error, ErrorKind, ErrorView};

verus! {

/// The line that tells which encoder is at work.
pub open spec fn spec_encoder_info(version: Seq<char>) -> Seq<char> {
    "Using \"webp (from image crate)\" ("@ + version + ")"@
}

/// Provides encoder information. `version` is the version of the `image`
/// crate in use.
pub fn encoder_info(version: &str) -> (r: String)
    ensures
        r@ == spec_encoder_info(version@),
{
    let mut info = String::from_str("Using \"webp (from image crate)\" (");
    info.append(version);
    info.append(")");
    info
}

/// The WebP file that `image::codecs::webp::WebPEncoder` writes without
/// loss for the given pixels, or the text of the error that it gives.
pub uninterp spec fn webp_file(
    pixels: Seq<u8>,
    width: u32,
    height: u32,
    color: image::ExtendedColorType,
) -> Result<Seq<u8>, Seq<char>>;

/// Runs `image::codecs::webp::WebPEncoder::new_lossless` and its
/// `write_image` into a fresh buffer. The encoder panics on a buffer whose
/// length is not that of the image, hence the `requires`. The contract gives
/// the file its name and claims nothing else of it: the encoder reads
/// nothing but its arguments.
#[verifier::external_body]
fn write_webp(pixels: &[u8], width: u32, height: u32, color: image::ExtendedColorType) -> (r:
    Result<Vec<u8>, String>)
    requires
        color == image::ExtendedColorType::Rgb8 || color == image::ExtendedColorType::Rgba8,
        pixels@.len() == width * height * if color == image::ExtendedColorType::Rgba8 {
            4int
        } else {
            3int
        },
    ensures
        encoder_answer(r) == webp_file(pixels@, width, height, color),
{
    let mut out = Vec::new();
    let encoder = image::codecs::webp::WebPEncoder::new_lossless(&mut out);
    match image::ImageEncoder::write_image(encoder, pixels, width, height, color) {
        Ok(()) => Ok(out),
        Err(e) => Err(e.to_string()),
    }
}

/// Encodes a bitmap to bytes of WebP format, without loss. Pixels with
/// transparency are written as RGBA, others as RGB.
pub fn encode_webp_image(image: &Bitmap) -> (r: Result<Vec<u8>, Error>)
    ensures
        match webp_file(
            image@.pixels,
            image@.width,
            image@.height,
            image@.layout.spec_color_type(),
        ) {
            Ok(file) => r matches Ok(bytes) && bytes@ == file,
            Err(text) => r matches Err(e) && e@ == (ErrorView {
                kind: ErrorKind::Encode,
                message: text,
            }),
        },
{
    let pixels = image.pixels();
    encoded_or_error(
        write_webp(pixels, image.width(), image.height(), image.layout().color_type()),
    )
}

/// Encodes a bitmap to WebP format without loss, always with an alpha
/// channel. A failure is given as its text.
pub fn to_webp(image: &Bitmap) -> (r: Result<Vec<u8>, String>)
    ensures
        encoder_answer(r) == webp_file(
            image@.spec_to_rgba8().pixels,
            image@.width,
            image@.height,
            image::ExtendedColorType::Rgba8,
        ),
{
    let rgba_image = image.to_rgba8();
    match encode_webp_image(&rgba_image) {
        Ok(webp_data) => Ok(webp_data),
        Err(e) => Err(e.to_string()),
    }
}

} // verus!
