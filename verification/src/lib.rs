//! Numeric core of a software renderer: a homogeneous-coordinate tuple
//! algebra, an RGB color model with quantized text encoding, a fixed-size
//! matrix storage primitive, and a row-major pixel canvas that serializes
//! to the textual P3 image format.
//!
//! All quantities are exact fixed-point numbers (see [`fixed`]), so every
//! arithmetic rule, tolerance comparison and encoding step carries a
//! machine-checked contract.

pub mod canvas;
pub mod color;
pub mod decimal;
pub mod fixed;
pub mod lines;
pub mod matrix;
pub mod sim;
pub mod tuple;
