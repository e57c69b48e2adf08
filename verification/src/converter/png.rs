//! PNG output by the encoder of the `image` crate.

use vstd::prelude::*;
use vstd::string::StringExecFns;

use crate::converter::{encoded_or_error, encoder_answer, Bitmap};
use crate::error::{Error, ErrorKind, ErrorView};

verus! {

/// How hard the encoder tries to make the file small.
#[derive(Clone, Copy, Debug, PartialEq, Eq, Structural)]
pub enum PngCompression {
    Default,
    Fast,
    Best,
}

/// The filter applied to the scanlines before they are compressed.
#[derive(Clone, Copy, Debug, PartialEq, Eq, Structural)]
pub enum PngFilter {
    NoFilter,
    Sub,
    Up,
    Avg,
    Paeth,
    Adaptive,
}

/// `image::codecs::png::CompressionType`, the compression settings of the
/// PNG encoder. Nothing is claimed of it: Verus reads its variants from the
/// crate.
#[verifier::external_type_specification]
pub struct ExCompressionType(image::codecs::png::CompressionType);

/// `image::codecs::png::FilterType`, the filter settings of the PNG encoder.
/// Nothing is claimed of it: Verus reads its variants from the crate.
#[verifier::external_type_specification]
pub struct ExFilterType(image::codecs::png::FilterType);

/// The compression setting of the encoder that an option stands for; the
/// default one where none is chosen.
pub open spec fn spec_compression_type(compression_type: Option<PngCompression>) ->
    image::codecs::png::CompressionType {
    match compression_type {
        Some(PngCompression::Fast) => image::codecs::png::CompressionType::Fast,
        Some(PngCompression::Best) => image::codecs::png::CompressionType::Best,
        Some(PngCompression::Default) | None => image::codecs::png::CompressionType::Default,
    }
}

/// The filter setting of the encoder that an option stands for; the adaptive
/// one where none is chosen.
pub open spec fn spec_filter_type(filter_type: Option<PngFilter>) ->
    image::codecs::png::FilterType {
    match filter_type {
        Some(PngFilter::NoFilter) => image::codecs::png::FilterType::NoFilter,
        Some(PngFilter::Sub) => image::codecs::png::FilterType::Sub,
        Some(PngFilter::Up) => image::codecs::png::FilterType::Up,
        Some(PngFilter::Avg) => image::codecs::png::FilterType::Avg,
        Some(PngFilter::Paeth) => image::codecs::png::FilterType::Paeth,
        Some(PngFilter::Adaptive) | None => image::codecs::png::FilterType::Adaptive,
    }
}

/// Maps the chosen compression to the setting of the encoder.
pub fn convert_compression_type_to_ext(compression_type: Option<PngCompression>) -> (r:
    image::codecs::png::CompressionType)
    ensures
        r == spec_compression_type(compression_type),
{
    match compression_type {
        Some(PngCompression::Fast) => image::codecs::png::CompressionType::Fast,
        Some(PngCompression::Best) => image::codecs::png::CompressionType::Best,
        Some(PngCompression::Default) | None => image::codecs::png::CompressionType::Default,
    }
}

/// Maps the chosen filter to the setting of the encoder.
pub fn convert_filter_type_to_ext(filter_type: Option<PngFilter>) -> (r:
    image::codecs::png::FilterType)
    ensures
        r == spec_filter_type(filter_type),
{
    match filter_type {
        Some(PngFilter::NoFilter) => image::codecs::png::FilterType::NoFilter,
        Some(PngFilter::Sub) => image::codecs::png::FilterType::Sub,
        Some(PngFilter::Up) => image::codecs::png::FilterType::Up,
        Some(PngFilter::Avg) => image::codecs::png::FilterType::Avg,
        Some(PngFilter::Paeth) => image::codecs::png::FilterType::Paeth,
        Some(PngFilter::Adaptive) | None => image::codecs::png::FilterType::Adaptive,
    }
}

/// The line that tells which encoder is at work.
pub open spec fn spec_encoder_info(version: Seq<char>) -> Seq<char> {
    "Using \"png (from image crate)\" ("@ + version + ")"@
}

/// Provides encoder information. `version` is the version of the `image`
/// crate in use.
pub fn encoder_info(version: &str) -> (r: String)
    ensures
        r@ == spec_encoder_info(version@),
{
    let mut info = String::from_str("Using \"png (from image crate)\" (");
    info.append(version);
    info.append(")");
    info
}

/// The PNG file that `image::codecs::png::PngEncoder` writes for the given
/// pixels and settings, or the text of the error that it gives.
pub uninterp spec fn png_file(
    pixels: Seq<u8>,
    width: u32,
    height: u32,
    color: image::ExtendedColorType,
    compression: image::codecs::png::CompressionType,
    filter: image::codecs::png::FilterType,
) -> Result<Seq<u8>, Seq<char>>;

/// Runs `image::codecs::png::PngEncoder::new_with_quality` and its
/// `write_image` into a fresh buffer. The encoder panics on a buffer whose
/// length is not that of the image, and hands a numbered compression level
/// on to the compressor unchecked, which may panic on it; hence the
/// `requires`, which admits the three named settings only. The contract gives
/// the file its name and claims nothing else of it: the encoder reads
/// nothing but its arguments.
#[verifier::external_body]
fn write_png(
    pixels: &[u8],
    width: u32,
    height: u32,
    color: image::ExtendedColorType,
    compression: image::codecs::png::CompressionType,
    filter: image::codecs::png::FilterType,
) -> (r: Result<Vec<u8>, String>)
    requires
        compression == image::codecs::png::CompressionType::Default || compression
            == image::codecs::png::CompressionType::Fast || compression
            == image::codecs::png::CompressionType::Best,
        color == image::ExtendedColorType::Rgb8 || color == image::ExtendedColorType::Rgba8,
        pixels@.len() == width * height * if color == image::ExtendedColorType::Rgba8 {
            4int
        } else {
            3int
        },
    ensures
        encoder_answer(r) == png_file(pixels@, width, height, color, compression, filter),
{
    let mut out = Vec::new();
    let encoder = image::codecs::png::PngEncoder::new_with_quality(&mut out, compression, filter);
    match image::ImageEncoder::write_image(encoder, pixels, width, height, color) {
        Ok(()) => Ok(out),
        Err(e) => Err(e.to_string()),
    }
}

/// Encodes a bitmap to bytes of PNG format. Pixels with transparency are
/// written as RGBA, others as RGB.
pub fn encode_png(
    image: &Bitmap,
    compression_type: Option<PngCompression>,
    filter_type: Option<PngFilter>,
) -> (r: Result<Vec<u8>, Error>)
    ensures
        match png_file(
            image@.pixels,
            image@.width,
            image@.height,
            image@.layout.spec_color_type(),
            spec_compression_type(compression_type),
            spec_filter_type(filter_type),
        ) {
            Ok(file) => r matches Ok(bytes) && bytes@ == file,
            Err(text) => r matches Err(e) && e@ == (ErrorView {
                kind: ErrorKind::Encode,
                message: text,
            }),
        },
{
    let ext_compression_type = convert_compression_type_to_ext(compression_type);
    let ext_filter_type = convert_filter_type_to_ext(filter_type);
    let pixels = image.pixels();
    encoded_or_error(
        write_png(
            pixels,
            image.width(),
            image.height(),
            image.layout().color_type(),
            ext_compression_type,
            ext_filter_type,
        ),
    )
}

} // verus!
