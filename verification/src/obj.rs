//! OBJ geometry and MTL material text: data types, face-vertex tokens,
//! the line parsers, and assembly of deduplicated buffers.

pub mod assemble;
pub mod face;
pub mod mtl;
pub mod parse;
pub mod triangulate;
pub mod types;
