use imgc::converter::avif::{
    convert_alpha_color_mode_to_ext, convert_bit_depth_to_ext, convert_color_model_to_ext,
    AvifAlphaColorMode, AvifBitDepth, AvifColorModel,
};
use imgc::converter::png::{
    convert_compression_type_to_ext, convert_filter_type_to_ext, encode_png, PngCompression,
    PngFilter,
};
use imgc::converter::webp_image::{encode_webp_image, to_webp};
use imgc::converter::{
    encoded_or_error, encoder_for, lossless_or_default, speed_or_default, Bitmap, CommonConfig,
    Encoder, PixelLayout,
};
use imgc::error::ErrorKind;
use imgc::filter::detect_format;
use imgc::format::ImageFormat;
use imgc::policy::Flags;
use image::codecs::png::{CompressionType, FilterType};

fn checkers(width: u32, height: u32, layout: PixelLayout) -> Bitmap {
    let mut pixels = Vec::new();
    for y in 0..height {
        for x in 0..width {
            let v = if (x + y) % 2 == 0 { 255 } else { 16 };
            pixels.extend_from_slice(&[v, (x * 7) as u8, (y * 13) as u8]);
            if layout == PixelLayout::Rgba8 {
                pixels.push(200);
            }
        }
    }
    Bitmap::new(width, height, layout, pixels).unwrap()
}

#[test]
fn encoder_for_the_five_targets() {
    assert_eq!(encoder_for(&ImageFormat::Webp).unwrap(), Encoder::Webp);
    assert_eq!(encoder_for(&ImageFormat::WebpImage).unwrap(), Encoder::WebpImage);
    assert_eq!(encoder_for(&ImageFormat::Avif).unwrap(), Encoder::Avif);
    assert_eq!(encoder_for(&ImageFormat::Png).unwrap(), Encoder::Png);
    assert_eq!(encoder_for(&ImageFormat::Jpeg).unwrap(), Encoder::Jpeg);
}

#[test]
fn other_targets_are_unsupported() {
    for format in [
        ImageFormat::Bmp,
        ImageFormat::Dds,
        ImageFormat::Farbfeld,
        ImageFormat::Gif,
        ImageFormat::Hdr,
        ImageFormat::Ico,
        ImageFormat::Exr,
        ImageFormat::Pnm,
        ImageFormat::Qoi,
        ImageFormat::Tga,
        ImageFormat::Tiff,
        ImageFormat::Unknown,
    ] {
        let e = encoder_for(&format).unwrap_err();
        assert_eq!(e.kind(), ErrorKind::UnsupportedFormat);
        assert_eq!(e.to_string(), "Unsupported image format");
    }
}

#[test]
fn config_hands_out_its_flags() {
    let config = CommonConfig {
        pattern: "*.png".to_string(),
        output: String::new(),
        overwrite_if_smaller: true,
        overwrite_existing: false,
        discard_if_larger_than_input: true,
    };
    assert_eq!(
        config.flags(),
        Flags {
            overwrite_if_smaller: true,
            overwrite_existing: false,
            discard_if_larger_than_input: true
        }
    );
}

#[test]
fn a_bitmap_needs_exactly_its_bytes() {
    assert!(Bitmap::new(2, 3, PixelLayout::Rgb8, vec![0; 18]).is_some());
    assert!(Bitmap::new(2, 3, PixelLayout::Rgb8, vec![0; 17]).is_none());
    assert!(Bitmap::new(2, 3, PixelLayout::Rgb8, vec![0; 24]).is_none());
    assert!(Bitmap::new(2, 3, PixelLayout::Rgba8, vec![0; 24]).is_some());
    assert!(Bitmap::new(0, 3, PixelLayout::Rgba8, Vec::new()).is_some());
    assert!(Bitmap::new(u32::MAX, u32::MAX, PixelLayout::Rgba8, vec![0; 4]).is_none());
    let b = Bitmap::new(2, 3, PixelLayout::Rgba8, (0..24).collect()).unwrap();
    assert_eq!(b.width(), 2);
    assert_eq!(b.height(), 3);
    assert_eq!(b.layout(), PixelLayout::Rgba8);
    assert_eq!(b.pixels(), (0..24).collect::<Vec<u8>>().as_slice());
}

#[test]
fn layout_follows_transparency() {
    assert_eq!(PixelLayout::for_alpha(true), PixelLayout::Rgba8);
    assert_eq!(PixelLayout::for_alpha(false), PixelLayout::Rgb8);
    assert_eq!(PixelLayout::Rgb8.channels(), 3);
    assert_eq!(PixelLayout::Rgba8.channels(), 4);
    assert_eq!(PixelLayout::Rgb8.color_type(), image::ExtendedColorType::Rgb8);
    assert_eq!(PixelLayout::Rgba8.color_type(), image::ExtendedColorType::Rgba8);
}

#[test]
fn png_encoding_can_be_read_back() {
    for layout in [PixelLayout::Rgb8, PixelLayout::Rgba8] {
        let bitmap = checkers(5, 4, layout);
        let bytes = encode_png(&bitmap, None, None).unwrap();
        assert_ne!(bytes.as_slice(), bitmap.pixels());
        assert_eq!(detect_format(&bytes), Some(ImageFormat::Png));
        let decoded =
            image::load_from_memory_with_format(&bytes, image::ImageFormat::Png).unwrap();
        assert_eq!(decoded.width(), 5);
        assert_eq!(decoded.height(), 4);
        assert_eq!(decoded.color().has_alpha(), layout == PixelLayout::Rgba8);
        assert_eq!(decoded.as_bytes(), bitmap.pixels());
    }
}

#[test]
fn png_settings_reach_the_encoder() {
    let mut pixels = Vec::new();
    for i in 0..(64 * 64 * 3) {
        pixels.push(((i * 31) % 251) as u8);
    }
    let bitmap = Bitmap::new(64, 64, PixelLayout::Rgb8, pixels).unwrap();
    let default = encode_png(&bitmap, None, None).unwrap();
    let same = encode_png(&bitmap, Some(PngCompression::Default), Some(PngFilter::Adaptive)).unwrap();
    assert_eq!(default, same);
    let fast = encode_png(&bitmap, Some(PngCompression::Fast), Some(PngFilter::NoFilter)).unwrap();
    let best = encode_png(&bitmap, Some(PngCompression::Best), Some(PngFilter::Paeth)).unwrap();
    assert_ne!(fast, best);
    for bytes in [&default, &fast, &best] {
        let decoded =
            image::load_from_memory_with_format(bytes, image::ImageFormat::Png).unwrap();
        assert_eq!(decoded.as_bytes(), bitmap.pixels());
    }
}

#[test]
fn png_of_an_empty_image_is_an_encode_error() {
    let bitmap = Bitmap::new(0, 0, PixelLayout::Rgb8, Vec::new()).unwrap();
    let e = encode_png(&bitmap, None, None).unwrap_err();
    assert_eq!(e.kind(), ErrorKind::Encode);
}

#[test]
fn webp_encoding_can_be_read_back() {
    for layout in [PixelLayout::Rgb8, PixelLayout::Rgba8] {
        let bitmap = checkers(6, 3, layout);
        let bytes = encode_webp_image(&bitmap).unwrap();
        assert_ne!(bytes.as_slice(), bitmap.pixels());
        assert_eq!(&bytes[..4], b"RIFF");
        assert_eq!(detect_format(&bytes), Some(ImageFormat::Webp));
        let decoded =
            image::load_from_memory_with_format(&bytes, image::ImageFormat::WebP).unwrap();
        assert_eq!(decoded.width(), 6);
        assert_eq!(decoded.height(), 3);
        assert_eq!(decoded.as_bytes(), bitmap.pixels());
    }
}

#[test]
fn webp_of_an_empty_image_is_an_encode_error() {
    let bitmap = Bitmap::new(0, 5, PixelLayout::Rgba8, Vec::new()).unwrap();
    let e = encode_webp_image(&bitmap).unwrap_err();
    assert_eq!(e.kind(), ErrorKind::Encode);
}

#[test]
fn encoded_or_error_keeps_bytes_and_wraps_failures() {
    assert_eq!(encoded_or_error(Ok(vec![1, 2, 3])).unwrap(), vec![1, 2, 3]);
    let e = encoded_or_error(Err("broken".to_string())).unwrap_err();
    assert_eq!(e.kind(), ErrorKind::Encode);
    assert_eq!(e.cause(), "broken");
}

#[test]
fn encoder_info_names_the_encoder_and_its_version() {
    assert_eq!(
        imgc::converter::png::encoder_info("0.25.10"),
        "Using \"png (from image crate)\" (0.25.10)"
    );
    assert_eq!(
        imgc::converter::webp_image::encoder_info("0.25.10"),
        "Using \"webp (from image crate)\" (0.25.10)"
    );
    assert_eq!(imgc::converter::mozjpeg::encoder_info("0.10.13"), "Using \"mozjpeg\" (0.10.13)");
    assert_eq!(imgc::converter::mozjpeg::encoder_info(""), "Using \"mozjpeg\" ()");
}

#[test]
fn png_options_map_to_the_settings_of_the_encoder() {
    assert_eq!(convert_compression_type_to_ext(None), CompressionType::Default);
    assert_eq!(
        convert_compression_type_to_ext(Some(PngCompression::Default)),
        CompressionType::Default
    );
    assert_eq!(convert_compression_type_to_ext(Some(PngCompression::Fast)), CompressionType::Fast);
    assert_eq!(convert_compression_type_to_ext(Some(PngCompression::Best)), CompressionType::Best);
    assert_eq!(convert_filter_type_to_ext(None), FilterType::Adaptive);
    assert_eq!(convert_filter_type_to_ext(Some(PngFilter::NoFilter)), FilterType::NoFilter);
    assert_eq!(convert_filter_type_to_ext(Some(PngFilter::Sub)), FilterType::Sub);
    assert_eq!(convert_filter_type_to_ext(Some(PngFilter::Up)), FilterType::Up);
    assert_eq!(convert_filter_type_to_ext(Some(PngFilter::Avg)), FilterType::Avg);
    assert_eq!(convert_filter_type_to_ext(Some(PngFilter::Paeth)), FilterType::Paeth);
    assert_eq!(convert_filter_type_to_ext(Some(PngFilter::Adaptive)), FilterType::Adaptive);
}

#[test]
fn avif_options_map_to_the_settings_of_the_encoder() {
    assert_eq!(convert_bit_depth_to_ext(None), ravif::BitDepth::Auto);
    assert_eq!(convert_bit_depth_to_ext(Some(AvifBitDepth::Eight)), ravif::BitDepth::Eight);
    assert_eq!(convert_bit_depth_to_ext(Some(AvifBitDepth::Ten)), ravif::BitDepth::Ten);
    assert_eq!(convert_bit_depth_to_ext(Some(AvifBitDepth::Auto)), ravif::BitDepth::Auto);
    assert_eq!(convert_color_model_to_ext(None), ravif::ColorModel::YCbCr);
    assert_eq!(convert_color_model_to_ext(Some(AvifColorModel::YCbCr)), ravif::ColorModel::YCbCr);
    assert_eq!(convert_color_model_to_ext(Some(AvifColorModel::RGB)), ravif::ColorModel::RGB);
    assert_eq!(convert_alpha_color_mode_to_ext(None), ravif::AlphaColorMode::UnassociatedClean);
    assert_eq!(
        convert_alpha_color_mode_to_ext(Some(AvifAlphaColorMode::UnassociatedDirty)),
        ravif::AlphaColorMode::UnassociatedDirty
    );
    assert_eq!(
        convert_alpha_color_mode_to_ext(Some(AvifAlphaColorMode::UnassociatedClean)),
        ravif::AlphaColorMode::UnassociatedClean
    );
    assert_eq!(
        convert_alpha_color_mode_to_ext(Some(AvifAlphaColorMode::Premultiplied)),
        ravif::AlphaColorMode::Premultiplied
    );
}

#[test]
fn to_rgba8_adds_an_opaque_alpha_byte() {
    let rgb = Bitmap::new(2, 2, PixelLayout::Rgb8, (1..=12).collect()).unwrap();
    let rgba = rgb.to_rgba8();
    assert_eq!(rgba.width(), 2);
    assert_eq!(rgba.height(), 2);
    assert_eq!(rgba.layout(), PixelLayout::Rgba8);
    assert_eq!(
        rgba.pixels(),
        &[1, 2, 3, 255, 4, 5, 6, 255, 7, 8, 9, 255, 10, 11, 12, 255]
    );
    let empty = Bitmap::new(0, 7, PixelLayout::Rgb8, Vec::new()).unwrap().to_rgba8();
    assert!(empty.pixels().is_empty());
    assert_eq!(empty.height(), 7);
}

#[test]
fn to_rgba8_keeps_pixels_that_have_alpha() {
    let bitmap = checkers(3, 2, PixelLayout::Rgba8);
    let same = bitmap.to_rgba8();
    assert_eq!(same.pixels(), bitmap.pixels());
    assert_eq!(same.width(), 3);
    assert_eq!(same.height(), 2);
    assert_eq!(same.layout(), PixelLayout::Rgba8);
}

#[test]
fn to_rgba8_agrees_with_the_image_crate() {
    let bitmap = checkers(4, 3, PixelLayout::Rgb8);
    let image = image::RgbImage::from_raw(4, 3, bitmap.pixels().to_vec()).unwrap();
    let expected = image::DynamicImage::ImageRgb8(image).to_rgba8();
    assert_eq!(bitmap.to_rgba8().pixels(), expected.as_raw().as_slice());
}

#[test]
fn to_webp_always_writes_an_alpha_channel() {
    let bitmap = checkers(4, 3, PixelLayout::Rgb8);
    let bytes = to_webp(&bitmap).unwrap();
    assert_eq!(detect_format(&bytes), Some(ImageFormat::Webp));
    let decoded = image::load_from_memory_with_format(&bytes, image::ImageFormat::WebP).unwrap();
    assert!(decoded.color().has_alpha());
    assert_eq!(decoded.as_bytes(), bitmap.to_rgba8().pixels());
    assert_eq!(bytes, encode_webp_image(&bitmap.to_rgba8()).unwrap());
    assert_ne!(bytes, encode_webp_image(&bitmap).unwrap());
}

#[test]
fn to_webp_gives_the_failure_as_text() {
    let empty = Bitmap::new(0, 0, PixelLayout::Rgb8, Vec::new()).unwrap();
    let text = to_webp(&empty).unwrap_err();
    assert_eq!(text, encode_webp_image(&empty).unwrap_err().to_string());
    assert!(!text.is_empty());
}

#[test]
fn options_fall_back_to_their_defaults() {
    assert!(!lossless_or_default(None));
    assert!(lossless_or_default(Some(true)));
    assert!(!lossless_or_default(Some(false)));
    assert_eq!(speed_or_default(None), 3);
    assert_eq!(speed_or_default(Some(1)), 1);
    assert_eq!(speed_or_default(Some(10)), 10);
}
