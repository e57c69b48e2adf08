use imgc::format::ImageFormat;

#[test]
fn extension_of_each_format() {
    assert_eq!(ImageFormat::Avif.extension(), "avif");
    assert_eq!(ImageFormat::Bmp.extension(), "bmp");
    assert_eq!(ImageFormat::Dds.extension(), "dds");
    assert_eq!(ImageFormat::Farbfeld.extension(), "ff");
    assert_eq!(ImageFormat::Gif.extension(), "gif");
    assert_eq!(ImageFormat::Hdr.extension(), "hdr");
    assert_eq!(ImageFormat::Ico.extension(), "ico");
    assert_eq!(ImageFormat::Jpeg.extension(), "jpeg");
    assert_eq!(ImageFormat::Exr.extension(), "exr");
    assert_eq!(ImageFormat::Png.extension(), "png");
    assert_eq!(ImageFormat::Pnm.extension(), "pnm");
    assert_eq!(ImageFormat::Qoi.extension(), "qoi");
    assert_eq!(ImageFormat::Tga.extension(), "tga");
    assert_eq!(ImageFormat::Tiff.extension(), "tiff");
    assert_eq!(ImageFormat::Webp.extension(), "webp");
    assert_eq!(ImageFormat::WebpImage.extension(), "webp");
    assert_eq!(ImageFormat::Unknown.extension(), "?");
}

#[test]
fn from_extension_knows_every_spelling() {
    assert_eq!(ImageFormat::from_extension("avif"), ImageFormat::Avif);
    assert_eq!(ImageFormat::from_extension("bmp"), ImageFormat::Bmp);
    assert_eq!(ImageFormat::from_extension("dds"), ImageFormat::Dds);
    assert_eq!(ImageFormat::from_extension("ff"), ImageFormat::Farbfeld);
    assert_eq!(ImageFormat::from_extension("farbfeld"), ImageFormat::Farbfeld);
    assert_eq!(ImageFormat::from_extension("gif"), ImageFormat::Gif);
    assert_eq!(ImageFormat::from_extension("hdr"), ImageFormat::Hdr);
    assert_eq!(ImageFormat::from_extension("ico"), ImageFormat::Ico);
    assert_eq!(ImageFormat::from_extension("jpeg"), ImageFormat::Jpeg);
    assert_eq!(ImageFormat::from_extension("jpg"), ImageFormat::Jpeg);
    assert_eq!(ImageFormat::from_extension("exr"), ImageFormat::Exr);
    assert_eq!(ImageFormat::from_extension("png"), ImageFormat::Png);
    assert_eq!(ImageFormat::from_extension("pnm"), ImageFormat::Pnm);
    assert_eq!(ImageFormat::from_extension("qoi"), ImageFormat::Qoi);
    assert_eq!(ImageFormat::from_extension("tga"), ImageFormat::Tga);
    assert_eq!(ImageFormat::from_extension("tiff"), ImageFormat::Tiff);
    assert_eq!(ImageFormat::from_extension("tif"), ImageFormat::Tiff);
    assert_eq!(ImageFormat::from_extension("webp"), ImageFormat::Webp);
}

#[test]
fn from_extension_ignores_ascii_case() {
    assert_eq!(ImageFormat::from_extension("PNG"), ImageFormat::Png);
    assert_eq!(ImageFormat::from_extension("Jpg"), ImageFormat::Jpeg);
    assert_eq!(ImageFormat::from_extension("TIF"), ImageFormat::Tiff);
    assert_eq!(ImageFormat::from_extension("WebP"), ImageFormat::Webp);
}

#[test]
fn from_extension_gives_unknown_for_the_rest() {
    assert_eq!(ImageFormat::from_extension("txt"), ImageFormat::Unknown);
    assert_eq!(ImageFormat::from_extension(""), ImageFormat::Unknown);
    assert_eq!(ImageFormat::from_extension("?"), ImageFormat::Unknown);
    assert_eq!(ImageFormat::from_extension("pn"), ImageFormat::Unknown);
    assert_eq!(ImageFormat::from_extension("pngg"), ImageFormat::Unknown);
    assert_eq!(ImageFormat::from_extension(".png"), ImageFormat::Unknown);
    // only ASCII letters are folded
    assert_eq!(ImageFormat::from_extension("ｐｎｇ"), ImageFormat::Unknown);
}

#[test]
fn extension_and_from_extension_agree() {
    let formats = [
        ImageFormat::Avif,
        ImageFormat::Bmp,
        ImageFormat::Dds,
        ImageFormat::Farbfeld,
        ImageFormat::Gif,
        ImageFormat::Hdr,
        ImageFormat::Ico,
        ImageFormat::Jpeg,
        ImageFormat::Exr,
        ImageFormat::Png,
        ImageFormat::Pnm,
        ImageFormat::Qoi,
        ImageFormat::Tga,
        ImageFormat::Tiff,
        ImageFormat::Webp,
        ImageFormat::Unknown,
    ];
    for format in formats {
        assert_eq!(ImageFormat::from_extension(format.extension()), format);
    }
    assert_eq!(
        ImageFormat::from_extension(ImageFormat::WebpImage.extension()),
        ImageFormat::Webp
    );
}

#[test]
fn same_output_joins_the_two_webp_formats_only() {
    assert!(ImageFormat::Webp.same_output(&ImageFormat::WebpImage));
    assert!(ImageFormat::WebpImage.same_output(&ImageFormat::Webp));
    assert!(ImageFormat::Png.same_output(&ImageFormat::Png));
    assert!(!ImageFormat::Png.same_output(&ImageFormat::Jpeg));
    assert!(!ImageFormat::Tiff.same_output(&ImageFormat::Tga));
    assert!(!ImageFormat::Unknown.same_output(&ImageFormat::Webp));
}

#[test]
fn from_path_reads_the_extension() {
    assert_eq!(ImageFormat::from_path("photos/cat.PNG"), ImageFormat::Png);
    assert_eq!(ImageFormat::from_path("cat.jpg"), ImageFormat::Jpeg);
    assert_eq!(ImageFormat::from_path("a.b/cat"), ImageFormat::Unknown);
    assert_eq!(ImageFormat::from_path(".png"), ImageFormat::Unknown);
    assert_eq!(ImageFormat::from_path("archive.tar.webp"), ImageFormat::Webp);
    assert_eq!(ImageFormat::from_path("notes.txt"), ImageFormat::Unknown);
    assert_eq!(ImageFormat::from_path(""), ImageFormat::Unknown);
}

#[test]
fn from_path_passes_over_separators_at_the_end() {
    assert_eq!(ImageFormat::from_path("x/b.png/"), ImageFormat::Png);
    assert_eq!(ImageFormat::from_path("x/b.png/."), ImageFormat::Png);
    assert_eq!(ImageFormat::from_path("x/b.jpg//./"), ImageFormat::Jpeg);
    assert_eq!(ImageFormat::from_path("x/b.png/.."), ImageFormat::Unknown);
    assert_eq!(ImageFormat::from_path("x.png/b"), ImageFormat::Unknown);
}

#[test]
fn from_path_agrees_with_the_extension_that_std_finds() {
    for path in ["a.PNG", "x/b.png/", "x/b.png/.", "c.tar.webp", ".png", "d", "e/..", "f.jpg//"] {
        let expected = match std::path::Path::new(path).extension().and_then(|e| e.to_str()) {
            Some(ext) => ImageFormat::from_extension(ext),
            None => ImageFormat::Unknown,
        };
        assert_eq!(ImageFormat::from_path(path), expected, "{:?}", path);
    }
}
