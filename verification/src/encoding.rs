//! The choice of the encoding that the sheet is written in.

use vstd::prelude::*;

verus! {

/// How the sheet is written to its file.
#[derive(Debug, Clone, Copy, PartialEq, Eq, Structural)]
pub enum SheetEncoding {
    /// Lossless WebP.
    LosslessWebp,
    /// Whatever format the file's extension stands for.
    ByExtension,
}

/// A text in lower case, as `str::to_lowercase` gives it.
pub uninterp spec fn lowercased(text: Seq<char>) -> Seq<char>;

/// `str::to_lowercase`: the text in lower case.
#[verifier::external_body]
pub(crate) fn lowercase(text: &str) -> (r: String)
    ensures
        r@ == lowercased(text@),
{
    text.to_lowercase()
}

/// `std::path::Path::extension` on a path given as text, `None` where the
/// path has no extension or one that is not text. What counts as the file
/// name of a path differs between platforms, so nothing is claimed of the
/// answer.
#[verifier::external_body]
pub(crate) fn path_extension(path: &str) -> (r: Option<String>) {
    std::path::Path::new(path).extension().and_then(|e| e.to_str()).map(|e| e.to_owned())
}

/// The encoding for a file with the given extension: lossless WebP where the
/// extension is `webp` in any mix of upper and lower case, else the choice is
/// left to the extension.
pub open spec fn encoding_for(extension: Seq<char>) -> SheetEncoding {
    if lowercased(extension) == "webp"@ {
        SheetEncoding::LosslessWebp
    } else {
        SheetEncoding::ByExtension
    }
}

/// The encoding for a file with the given extension.
pub fn sheet_encoding(extension: &str) -> (r: SheetEncoding)
    ensures
        r == encoding_for(extension@),
{
    let lower = lowercase(extension);
    let webp = "webp".to_owned();
    if lower == webp {
        SheetEncoding::LosslessWebp
    } else {
        SheetEncoding::ByExtension
    }
}

/// The encoding for the file at the given path: that of its extension, and
/// that of the empty extension where it has none.
pub fn encoding_of_path(path: &str) -> (r: SheetEncoding)
    ensures
        exists|extension: Seq<char>| r == encoding_for(extension),
{
    match path_extension(path) {
        Some(extension) => sheet_encoding(extension.as_str()),
        None => sheet_encoding(""),
    }
}

} // verus!
