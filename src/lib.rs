//! Conversion of 3-D scene data into compact console containers: a mesh
//! container of fixed-point vertex records grouped in chunks, and an
//! indexed-colour texture container with fade palettes, together with an
//! independent validator for both formats.

pub mod bytes;
pub mod error;
pub mod grid;
pub mod helpers;
pub mod mesh_codec;
pub mod palette;
pub mod psx_structs;
pub mod quantize;
pub mod texture;
pub mod texture_codec;
