//! The errors of a layout run.

use vstd::prelude::*;
use vstd::string::StringExecFns;

verus! {

/// Why a layout run, or the compositing that follows it, did not produce a
/// sheet.
#[derive(Debug, Clone, PartialEq, Eq)]
pub enum SpriteError {
    /// No images were supplied.
    EmptyInput,
    /// The computed canvas has a zero width or a zero height.
    DegenerateCanvas,
    /// The packer found no free region for the named image.
    PackingFailed(String),
    /// A placement reaches beyond the pixel buffer it is copied into.
    CopyOutOfBounds,
}

/// An error as contracts speak of it.
pub enum Failure {
    EmptyInput,
    DegenerateCanvas,
    PackingFailed(Seq<char>),
    CopyOutOfBounds,
}

impl View for SpriteError {
    type V = Failure;

    open spec fn view(&self) -> Failure {
        match self {
            SpriteError::EmptyInput => Failure::EmptyInput,
            SpriteError::DegenerateCanvas => Failure::DegenerateCanvas,
            SpriteError::PackingFailed(identifier) => Failure::PackingFailed(identifier@),
            SpriteError::CopyOutOfBounds => Failure::CopyOutOfBounds,
        }
    }
}

/// What an error says to the user.
pub open spec fn message_text(failure: Failure) -> Seq<char> {
    match failure {
        Failure::EmptyInput => "No images found in input directory"@,
        Failure::DegenerateCanvas => "Invalid sprite dimensions"@,
        Failure::PackingFailed(identifier) => "Failed to pack image '"@ + identifier + "'"@,
        Failure::CopyOutOfBounds => "Copy failed"@,
    }
}

impl SpriteError {
    /// What the error says to the user. A packing failure names the image
    /// that found no room.
    pub fn message(&self) -> (r: String)
        ensures
            r@ == message_text(self@),
    {
        match self {
            SpriteError::EmptyInput => "No images found in input directory".to_owned(),
            SpriteError::DegenerateCanvas => "Invalid sprite dimensions".to_owned(),
            SpriteError::PackingFailed(identifier) => {
                let mut text = "Failed to pack image '".to_owned();
                text.append(identifier.as_str());
                text.append("'");
                text
            },
            SpriteError::CopyOutOfBounds => "Copy failed".to_owned(),
        }
    }
}

} // verus!
