//! The settings of the AVIF encoder.

use vstd::prelude::*;

verus! {

/// The bit depth inside the AVIF file, whatever the input had.
#[derive(Clone, Copy, Debug, PartialEq, Eq, Structural)]
pub enum AvifBitDepth {
    Eight,
    Ten,
    Auto,
}

/// The colour model inside the AVIF file.
#[derive(Clone, Copy, Debug, PartialEq, Eq, Structural)]
pub enum AvifColorModel {
    YCbCr,
    RGB,
}

/// How colour is stored where the image is transparent.
#[derive(Clone, Copy, Debug, PartialEq, Eq, Structural)]
pub enum AvifAlphaColorMode {
    UnassociatedDirty,
    UnassociatedClean,
    Premultiplied,
}

/// `ravif::BitDepth`, the bit depths of the AVIF encoder. Nothing is claimed
/// of it: Verus reads its variants from the crate.
#[verifier::external_type_specification]
pub struct ExBitDepth(ravif::BitDepth);

/// `ravif::ColorModel`, the colour models of the AVIF encoder. Nothing is
/// claimed of it: Verus reads its variants from the crate.
#[verifier::external_type_specification]
pub struct ExColorModel(ravif::ColorModel);

/// `ravif::AlphaColorMode`, the alpha colour modes of the AVIF encoder.
/// Nothing is claimed of it: Verus reads its variants from the crate.
#[verifier::external_type_specification]
pub struct ExAlphaColorMode(ravif::AlphaColorMode);

/// The bit depth of the encoder that an option stands for; `Auto` where none
/// is chosen.
pub open spec fn spec_bit_depth(bit_depth: Option<AvifBitDepth>) -> ravif::BitDepth {
    match bit_depth {
        Some(AvifBitDepth::Eight) => ravif::BitDepth::Eight,
        Some(AvifBitDepth::Ten) => ravif::BitDepth::Ten,
        Some(AvifBitDepth::Auto) | None => ravif::BitDepth::Auto,
    }
}

/// The colour model of the encoder that an option stands for; `YCbCr` where
/// none is chosen.
pub open spec fn spec_color_model(color_model: Option<AvifColorModel>) -> ravif::ColorModel {
    match color_model {
        Some(AvifColorModel::RGB) => ravif::ColorModel::RGB,
        Some(AvifColorModel::YCbCr) | None => ravif::ColorModel::YCbCr,
    }
}

/// The alpha colour mode of the encoder that an option stands for;
/// `UnassociatedClean` where none is chosen.
pub open spec fn spec_alpha_color_mode(alpha_color_mode: Option<AvifAlphaColorMode>) ->
    ravif::AlphaColorMode {
    match alpha_color_mode {
        Some(AvifAlphaColorMode::UnassociatedDirty) => ravif::AlphaColorMode::UnassociatedDirty,
        Some(AvifAlphaColorMode::Premultiplied) => ravif::AlphaColorMode::Premultiplied,
        Some(AvifAlphaColorMode::UnassociatedClean) | None =>
            ravif::AlphaColorMode::UnassociatedClean,
    }
}

/// Maps the chosen bit depth to the setting of the encoder.
pub fn convert_bit_depth_to_ext(bit_depth: Option<AvifBitDepth>) -> (r: ravif::BitDepth)
    ensures
        r == spec_bit_depth(bit_depth),
{
    match bit_depth {
        Some(AvifBitDepth::Eight) => ravif::BitDepth::Eight,
        Some(AvifBitDepth::Ten) => ravif::BitDepth::Ten,
        Some(AvifBitDepth::Auto) | None => ravif::BitDepth::Auto,
    }
}

/// Maps the chosen colour model to the setting of the encoder.
pub fn convert_color_model_to_ext(color_model: Option<AvifColorModel>) -> (r: ravif::ColorModel)
    ensures
        r == spec_color_model(color_model),
{
    match color_model {
        Some(AvifColorModel::RGB) => ravif::ColorModel::RGB,
        Some(AvifColorModel::YCbCr) | None => ravif::ColorModel::YCbCr,
    }
}

/// Maps the chosen alpha colour mode to the setting of the encoder.
pub fn convert_alpha_color_mode_to_ext(alpha_color_mode: Option<AvifAlphaColorMode>) -> (r:
    ravif::AlphaColorMode)
    ensures
        r == spec_alpha_color_mode(alpha_color_mode),
{
    match alpha_color_mode {
        Some(AvifAlphaColorMode::UnassociatedDirty) => ravif::AlphaColorMode::UnassociatedDirty,
        Some(AvifAlphaColorMode::Premultiplied) => ravif::AlphaColorMode::Premultiplied,
        Some(AvifAlphaColorMode::UnassociatedClean) | None =>
            ravif::AlphaColorMode::UnassociatedClean,
    }
}

} // verus!
