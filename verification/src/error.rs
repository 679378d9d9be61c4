//! The one way in which mapping an image can fail.
use vstd::prelude::*;

verus! {

/// Why an image could not be mapped to glyphs.
#[derive(Debug, Clone, Copy, PartialEq, Eq, Structural)]
pub enum AsciiError {
    /// The palette holds no glyph, so no pixel can be given one.
    EmptyPalette,
}

impl AsciiError {
    /// What went wrong, as one sentence for the caller to show.
    pub fn message(&self) -> (text: String)
        ensures
            text@ == "the palette holds no glyph"@,
    {
        match self {
            AsciiError::EmptyPalette => String::from_str("the palette holds no glyph"),
        }
    }
}

} // verus!
