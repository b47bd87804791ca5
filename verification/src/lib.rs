//! Core of a 3D model viewer: parsing of OBJ geometry and MTL material
//! text, face triangulation support, assembly of deduplicated vertex and
//! index buffers, and a decoder for uncompressed BMP images.
//!
//! Floating-point coordinate values are carried opaquely: the parsers hand
//! numeric source tokens out unchanged, and the mesh assembler moves IEEE-754
//! bit patterns (`u32`) without interpreting them, so that every decision the
//! library makes is over integers, characters and strings.

pub mod bmp;
pub mod chars;
pub mod lex;
pub mod obj;
pub mod rng;
pub mod scene;

