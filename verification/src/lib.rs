//! Compiles a glTF scene description into flat, renderer-ready buffers.
//!
//! Every number that a renderer reads as a single-precision value is carried
//! here as its IEEE 754 bit pattern, so that equality of compiled scenes is
//! equality of bytes.

pub mod algebra;
pub mod camera;
pub mod input;
pub mod scalar;
pub mod scene;
pub mod vertex;
