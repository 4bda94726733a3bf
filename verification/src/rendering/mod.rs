//! Colour palettes of the renderer.
pub mod color;
