//! Pixel blocks of a fragment result.
pub mod pixel_data;
