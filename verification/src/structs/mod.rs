//! Message types of the blocking protocol.
pub mod fractals;
pub mod fragment_request;
pub mod pixel_data;
pub mod resolution;
pub mod u8data;
