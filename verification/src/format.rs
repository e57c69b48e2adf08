//! The image formats known to the converter and their file extensions.

use vstd::prelude::*;

use crate::text::{ascii_lowercase, chars_equal, has_char, to_lower_chars};

verus! {

/// `ImageFormat` defines the various formats that an image can have.
///
/// Each variant stands for one encoding of an image file. `Unknown` stands for
/// everything that is not listed.
#[derive(Clone, Copy, Debug, PartialEq, Eq, Structural)]
pub enum ImageFormat {
    /// AV1 Image File Format, a format designed for high compression efficiency.
    Avif,
    /// Bitmap, a raster graphics image file format used to store bitmap digital images.
    Bmp,
    /// DirectDraw Surface, a container format for data compressed with the S3TC algorithm.
    Dds,
    /// Farbfeld, a simple image file format designed to work well with lossless compression.
    Farbfeld,
    /// Graphics Interchange Format, a bitmap image format that supports animation.
    Gif,
    /// Radiance HDR, a raster graphics file format for high dynamic range images.
    Hdr,
    /// Icon, a bitmap image format used for icons in Microsoft Windows.
    Ico,
    /// Joint Photographic Experts Group, a lossy image compression standard.
    Jpeg,
    /// OpenEXR, a high dynamic range raster file format.
    Exr,
    /// Portable Network Graphics, a raster graphics file format with lossless compression.
    Png,
    /// Portable anymap, a family of file formats to store bitmap images.
    Pnm,
    /// Quite OK Image, a fast lossless image format.
    Qoi,
    /// Truevision TGA, a raster graphics file format.
    Tga,
    /// Tagged Image File Format, a file format for storing raster graphics images.
    Tiff,
    /// WebP, an image format with lossless and lossy compression for images on the web.
    Webp,
    /// WebP again, written by the lossless VP8L encoder.
    WebpImage,
    /// An image format that is not listed here.
    Unknown,
}

impl ImageFormat {
    /// The canonical file extension of the format, without the dot.
    pub open spec fn spec_extension(self) -> Seq<char> {
        match self {
            ImageFormat::Avif => "avif"@,
            ImageFormat::Bmp => "bmp"@,
            ImageFormat::Dds => "dds"@,
            ImageFormat::Farbfeld => "ff"@,
            ImageFormat::Gif => "gif"@,
            ImageFormat::Hdr => "hdr"@,
            ImageFormat::Ico => "ico"@,
            ImageFormat::Jpeg => "jpeg"@,
            ImageFormat::Exr => "exr"@,
            ImageFormat::Png => "png"@,
            ImageFormat::Pnm => "pnm"@,
            ImageFormat::Qoi => "qoi"@,
            ImageFormat::Tga => "tga"@,
            ImageFormat::Tiff => "tiff"@,
            ImageFormat::Webp => "webp"@,
            ImageFormat::WebpImage => "webp"@,
            ImageFormat::Unknown => "?"@,
        }
    }

    /// The format that a file extension names. Letter case is ignored; an
    /// extension that names no format gives `Unknown`. No extension names
    /// `WebpImage`: it shares `webp` with `Webp`.
    pub open spec fn spec_from_extension(ext: Seq<char>) -> ImageFormat {
        let e = ascii_lowercase(ext);
        if e == "avif"@ {
            ImageFormat::Avif
        } else if e == "bmp"@ {
            ImageFormat::Bmp
        } else if e == "dds"@ {
            ImageFormat::Dds
        } else if e == "ff"@ || e == "farbfeld"@ {
            ImageFormat::Farbfeld
        } else if e == "gif"@ {
            ImageFormat::Gif
        } else if e == "hdr"@ {
            ImageFormat::Hdr
        } else if e == "ico"@ {
            ImageFormat::Ico
        } else if e == "jpeg"@ || e == "jpg"@ {
            ImageFormat::Jpeg
        } else if e == "exr"@ {
            ImageFormat::Exr
        } else if e == "png"@ {
            ImageFormat::Png
        } else if e == "pnm"@ {
            ImageFormat::Pnm
        } else if e == "qoi"@ {
            ImageFormat::Qoi
        } else if e == "tga"@ {
            ImageFormat::Tga
        } else if e == "tiff"@ || e == "tif"@ {
            ImageFormat::Tiff
        } else if e == "webp"@ {
            ImageFormat::Webp
        } else {
            ImageFormat::Unknown
        }
    }

    /// Get the file extension associated with the image format.
    pub fn extension(&self) -> (r: &'static str)
        ensures
            r@ == self.spec_extension(),
    {
        match self {
            ImageFormat::Avif => "avif",
            ImageFormat::Bmp => "bmp",
            ImageFormat::Dds => "dds",
            ImageFormat::Farbfeld => "ff",
            ImageFormat::Gif => "gif",
            ImageFormat::Hdr => "hdr",
            ImageFormat::Ico => "ico",
            ImageFormat::Jpeg => "jpeg",
            ImageFormat::Exr => "exr",
            ImageFormat::Png => "png",
            ImageFormat::Pnm => "pnm",
            ImageFormat::Qoi => "qoi",
            ImageFormat::Tga => "tga",
            ImageFormat::Tiff => "tiff",
            ImageFormat::Webp => "webp",
            ImageFormat::WebpImage => "webp",
            ImageFormat::Unknown => "?",
        }
    }

    /// Determine the image format based on the file extension.
    pub fn from_extension(ext: &str) -> (r: Self)
        ensures
            r == Self::spec_from_extension(ext@),
    {
        let lower = to_lower_chars(ext);
        let e = lower.as_slice();
        if chars_equal(e, "avif") {
            ImageFormat::Avif
        } else if chars_equal(e, "bmp") {
            ImageFormat::Bmp
        } else if chars_equal(e, "dds") {
            ImageFormat::Dds
        } else if chars_equal(e, "ff") || chars_equal(e, "farbfeld") {
            ImageFormat::Farbfeld
        } else if chars_equal(e, "gif") {
            ImageFormat::Gif
        } else if chars_equal(e, "hdr") {
            ImageFormat::Hdr
        } else if chars_equal(e, "ico") {
            ImageFormat::Ico
        } else if chars_equal(e, "jpeg") || chars_equal(e, "jpg") {
            ImageFormat::Jpeg
        } else if chars_equal(e, "exr") {
            ImageFormat::Exr
        } else if chars_equal(e, "png") {
            ImageFormat::Png
        } else if chars_equal(e, "pnm") {
            ImageFormat::Pnm
        } else if chars_equal(e, "qoi") {
            ImageFormat::Qoi
        } else if chars_equal(e, "tga") {
            ImageFormat::Tga
        } else if chars_equal(e, "tiff") || chars_equal(e, "tif") {
            ImageFormat::Tiff
        } else if chars_equal(e, "webp") {
            ImageFormat::Webp
        } else {
            ImageFormat::Unknown
        }
    }

    /// No canonical extension is empty or holds a `/` or a `.`.
    pub proof fn lemma_extension_is_plain(self)
        ensures
            self.spec_extension().len() > 0,
            !has_char(self.spec_extension(), '/'),
            !has_char(self.spec_extension(), '.'),
    {
        reveal_strlit("avif");
        reveal_strlit("bmp");
        reveal_strlit("dds");
        reveal_strlit("ff");
        reveal_strlit("gif");
        reveal_strlit("hdr");
        reveal_strlit("ico");
        reveal_strlit("jpeg");
        reveal_strlit("exr");
        reveal_strlit("png");
        reveal_strlit("pnm");
        reveal_strlit("qoi");
        reveal_strlit("tga");
        reveal_strlit("tiff");
        reveal_strlit("webp");
        reveal_strlit("?");
    }

    /// Whether two formats end up in files of the same kind, that is, whether
    /// they share their canonical extension.
    pub open spec fn spec_same_output(self, other: ImageFormat) -> bool {
        self.spec_extension() == other.spec_extension()
    }

    /// Whether converting from one of two formats to the other would give a
    /// file of the kind it started from.
    pub fn same_output(&self, other: &ImageFormat) -> (r: bool)
        ensures
            r == self.spec_same_output(*other),
    {
        proof {
            self.lemma_extensions_differ(*other);
        }
        let a = match self {
            ImageFormat::WebpImage => ImageFormat::Webp,
            _ => *self,
        };
        let b = match other {
            ImageFormat::WebpImage => ImageFormat::Webp,
            _ => *other,
        };
        a == b
    }

    /// The canonical extension of a format names that format again, but for
    /// `WebpImage`, whose extension names `Webp`.
    pub proof fn lemma_extension_names_format(self)
        ensures
            Self::spec_from_extension(self.spec_extension()) == if self
                == ImageFormat::WebpImage {
                ImageFormat::Webp
            } else {
                self
            },
    {
        reveal_strlit("avif");
        reveal_strlit("bmp");
        reveal_strlit("dds");
        reveal_strlit("ff");
        reveal_strlit("farbfeld");
        reveal_strlit("gif");
        reveal_strlit("hdr");
        reveal_strlit("ico");
        reveal_strlit("jpeg");
        reveal_strlit("jpg");
        reveal_strlit("exr");
        reveal_strlit("png");
        reveal_strlit("pnm");
        reveal_strlit("qoi");
        reveal_strlit("tga");
        reveal_strlit("tiff");
        reveal_strlit("tif");
        reveal_strlit("webp");
        reveal_strlit("?");
        let e = self.spec_extension();
        assert(ascii_lowercase(e) =~= e);
        self.lemma_extensions_differ(ImageFormat::Avif);
        self.lemma_extensions_differ(ImageFormat::Bmp);
        self.lemma_extensions_differ(ImageFormat::Dds);
        self.lemma_extensions_differ(ImageFormat::Farbfeld);
        self.lemma_extensions_differ(ImageFormat::Gif);
        self.lemma_extensions_differ(ImageFormat::Hdr);
        self.lemma_extensions_differ(ImageFormat::Ico);
        self.lemma_extensions_differ(ImageFormat::Jpeg);
        self.lemma_extensions_differ(ImageFormat::Exr);
        self.lemma_extensions_differ(ImageFormat::Png);
        self.lemma_extensions_differ(ImageFormat::Pnm);
        self.lemma_extensions_differ(ImageFormat::Qoi);
        self.lemma_extensions_differ(ImageFormat::Tga);
        self.lemma_extensions_differ(ImageFormat::Tiff);
        self.lemma_extensions_differ(ImageFormat::Webp);
        assert(e != "farbfeld"@) by {
            assert(e.len() <= 4);
        }
        assert(e != "jpg"@) by {
            assert(e[0] != 'j' || e.len() == 4);
        }
        assert(e != "tif"@) by {
            assert(e.len() < 2 || e[0] != 't' || e[1] != 'i' || e.len() == 4);
        }
    }

    /// No two formats share an extension, but for the two that write WebP.
    pub proof fn lemma_extensions_differ(self, other: ImageFormat)
        ensures
            self.spec_extension() == other.spec_extension() <==> self == other || ((self
                == ImageFormat::Webp || self == ImageFormat::WebpImage) && (other
                == ImageFormat::Webp || other == ImageFormat::WebpImage)),
    {
        reveal_strlit("avif");
        reveal_strlit("bmp");
        reveal_strlit("dds");
        reveal_strlit("ff");
        reveal_strlit("gif");
        reveal_strlit("hdr");
        reveal_strlit("ico");
        reveal_strlit("jpeg");
        reveal_strlit("exr");
        reveal_strlit("png");
        reveal_strlit("pnm");
        reveal_strlit("qoi");
        reveal_strlit("tga");
        reveal_strlit("tiff");
        reveal_strlit("webp");
        reveal_strlit("?");
        let a = self.spec_extension();
        let b = other.spec_extension();
        if a == b {
            assert(a.len() == b.len());
            assert(a[0] == b[0]);
            if a.len() > 1 {
                assert(a[1] == b[1]);
            }
            if a.len() > 2 {
                assert(a[2] == b[2]);
            }
        }
    }
}

} // verus!
