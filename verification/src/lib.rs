//! Terrain generator front end: the world configuration, the per-chunk
//! plan handed to the GPU, and the decoding of what the GPU writes back.

pub mod decimal;
pub mod bytes;
pub mod generator;
