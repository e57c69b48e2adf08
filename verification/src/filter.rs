//! The format filter: which files are converted at all.
//!
//! A file is converted if its content begins like an image of a format that
//! the codecs recognise, and if that format is not already the one to
//! convert to. The file's name plays no part.

use vstd::prelude::*;

use crate::format::ImageFormat;
use crate::paths::{file_name, is_file_name, CandidatePath, CandidateView};

verus! {

/// The file extensions of the format that `image::guess_format` finds at the
/// head of `data`, in the order in which `image::ImageFormat::extensions_str`
/// lists them, or `None` where it finds no format.
pub uninterp spec fn recognized_extensions(data: Seq<u8>) -> Option<Seq<Seq<char>>>;

/// Asks `image::guess_format` for the format of `data`, and
/// `image::ImageFormat::extensions_str` for the extensions of that format.
/// The contract gives the answer its name and claims nothing else of it:
/// the guess depends on the bytes alone.
#[verifier::external_body]
fn guess_extensions(data: &[u8]) -> (r: Option<Vec<String>>)
    ensures
        r.deep_view() == recognized_extensions(data@),
{
    match image::guess_format(data) {
        Ok(format) => Some(format.extensions_str().iter().map(|e| e.to_string()).collect()),
        Err(_) => None,
    }
}

/// The format that the first extension names which names one at all, or
/// `Unknown` where none does.
pub open spec fn first_known(extensions: Seq<Seq<char>>) -> ImageFormat
    decreases extensions.len(),
{
    if extensions.len() == 0 {
        ImageFormat::Unknown
    } else if ImageFormat::spec_from_extension(extensions[0]) != ImageFormat::Unknown {
        ImageFormat::spec_from_extension(extensions[0])
    } else {
        first_known(extensions.drop_first())
    }
}

/// The format of a file with the given content, where it is recognised.
pub open spec fn spec_detect_format(data: Seq<u8>) -> Option<ImageFormat> {
    match recognized_extensions(data) {
        Some(extensions) => Some(first_known(extensions)),
        None => None,
    }
}

/// Whether a file is to be converted: its format was recognised, and is not
/// the target format nor one that ends up in files of the same kind.
pub open spec fn spec_accepts(detected: Option<ImageFormat>, target: ImageFormat) -> bool {
    detected matches Some(format) && !format.spec_same_output(target)
}

/// Whether a file of the given content, or one that could not be read, is to
/// be converted to `target`.
pub open spec fn spec_is_supported(content: Option<Seq<u8>>, target: ImageFormat) -> bool {
    content matches Some(data) && spec_accepts(spec_detect_format(data), target)
}

/// Picks the format that a list of extensions stands for: that of the first
/// extension which the format table knows.
pub fn format_of_extensions(extensions: &Vec<String>) -> (r: ImageFormat)
    ensures
        r == first_known(extensions.deep_view()),
{
    let ghost all = extensions.deep_view();
    let mut i: usize = 0;
    assert(all.skip(0) == all);
    while i < extensions.len()
        invariant
            i <= extensions.len(),
            all == extensions.deep_view(),
            first_known(all) == first_known(all.skip(i as int)),
        decreases extensions.len() - i,
    {
        let format = ImageFormat::from_extension(extensions[i].as_str());
        proof {
            let rest = all.skip(i as int);
            assert(rest[0] == extensions@[i as int]@);
            assert(rest.drop_first() == all.skip(i + 1));
        }
        if format != ImageFormat::Unknown {
            return format;
        }
        i += 1;
    }
    ImageFormat::Unknown
}

/// Classifies a file by its content.
pub fn detect_format(data: &[u8]) -> (r: Option<ImageFormat>)
    ensures
        r == spec_detect_format(data@),
{
    match guess_extensions(data) {
        Some(extensions) => Some(format_of_extensions(&extensions)),
        None => None,
    }
}

/// Decides whether a file whose format was detected is to be converted.
pub fn accepts(detected: Option<ImageFormat>, target: &ImageFormat) -> (r: bool)
    ensures
        r == spec_accepts(detected, *target),
{
    match detected {
        Some(format) => !format.same_output(target),
        None => false,
    }
}

/// Checks if an image of the given content is supported, ignoring a specific
/// format. `content` is `None` for a file that could not be read; such a
/// file is not supported.
pub fn is_supported(content: Option<&[u8]>, ignore_format: &ImageFormat) -> (r: bool)
    ensures
        r == spec_is_supported(
            match content {
                Some(data) => Some(data@),
                None => None,
            },
            *ignore_format,
        ),
{
    match content {
        Some(data) => accepts(detect_format(data), ignore_format),
        None => false,
    }
}

/// Makes a candidate of a path and the content of the file behind it, if the
/// file is to be converted to `target` and the path names a file.
pub fn candidate(path: String, content: Option<&[u8]>, target: &ImageFormat) -> (r: Option<
    CandidatePath,
>)
    ensures
        r is Some <==> is_file_name(file_name(path@)) && content is Some && spec_accepts(
            spec_detect_format(content->0@),
            *target,
        ),
        r matches Some(c) ==> c@ == (CandidateView {
            path: path@,
            format: spec_detect_format(content->0@)->0,
        }),
{
    match content {
        Some(data) => {
            let detected = detect_format(data);
            match detected {
                Some(format) => if accepts(detected, target) {
                    CandidatePath::new(path, format)
                } else {
                    None
                },
                None => None,
            }
        },
        None => None,
    }
}

} // verus!
