//! BMP images: pixel grid type and a decoder for the uncompressed formats.

pub mod types;
pub mod decode;
