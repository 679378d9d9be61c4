//! Turns a decoded image into text: every pixel becomes one glyph of a
//! palette, chosen by brightness, alone or wrapped in terminal colour codes.
//!
//! - `buffer`: the image, as rows of pixels with their channel samples.
//! - `glyph`: from a pixel's brightness to the index of its glyph.
//! - `rounding`: the single-precision rounding that the index goes through.
//! - `grid`: the image as a table of glyphs and colours.
//! - `frame`: the image as one block of coloured text.
//! - `plain`: what the text holds once its colour sequences are taken out.
//! - `error`: the one way in which all this can fail.
pub mod buffer;
pub mod error;
pub mod frame;
pub mod glyph;
pub mod grid;
pub mod plain;
pub mod rounding;

pub use crate::buffer::PixelBuffer;
pub use crate::error::AsciiError;
pub use crate::frame::render_frame_to_string;
pub use crate::glyph::GlyphMapper;
pub use crate::grid::image_to_ascii_rs;
