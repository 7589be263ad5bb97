//! The kinds of image file that the platform reads textures from.
use vstd::prelude::*;
use vstd::string::*;
use crate::chars::same_text;

verus! {

/// `s` in lower case, as `str::to_lowercase` maps it.
pub uninterp spec fn lowercase(s: Seq<char>) -> Seq<char>;

/// `str::to_lowercase` of std: `s` with each character in lower case, by the
/// Unicode mapping that std implements. The result is a function of `s`
/// alone, named `lowercase`.
#[verifier::external_body]
fn to_lowercase(s: &str) -> (r: String)
    ensures
        r@ == lowercase(s@),
{
    s.to_lowercase()
}

/// An image file format that textures are read from.
#[derive(Debug, Clone, Copy, PartialEq, Eq)]
pub enum ImageFileFormat {
    Png,
    Jpeg,
}

/// The image format of files with the extension `extension`, whatever its
/// case: `png`, or `jpeg` and `jpg`; no other is read.
pub open spec fn image_format_of(extension: Seq<char>) -> Option<ImageFileFormat> {
    let lower = lowercase(extension);
    if lower == "png"@ {
        Some(ImageFileFormat::Png)
    } else if lower == "jpeg"@ || lower == "jpg"@ {
        Some(ImageFileFormat::Jpeg)
    } else {
        None
    }
}

/// The image format of files with the extension `extension`; `None` for an
/// extension that is neither `png`, `jpeg` nor `jpg` in any case.
pub fn image_format_for_extension(extension: &str) -> (r: Option<ImageFileFormat>)
    ensures
        r == image_format_of(extension@),
{
    let lower = to_lowercase(extension);
    if same_text(lower.as_str(), "png") {
        Some(ImageFileFormat::Png)
    } else if same_text(lower.as_str(), "jpeg") || same_text(lower.as_str(), "jpg") {
        Some(ImageFileFormat::Jpeg)
    } else {
        None
    }
}

} // verus!
