//! Message types of the asynchronous protocol.
pub mod fractal;
pub mod fragments;
pub mod pixel;
pub mod resolution;
pub mod u8_data;
