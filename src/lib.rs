//! Error-diffusion dithering: reduces an image to a few levels per channel,
//! or to a palette, while spreading each pixel's quantization error over its
//! not-yet-visited neighbors.
//!
//! Channel values are worked on in exact fixed point (see `fixed`), so every
//! result is stated, and proved, as an integer function of the input.

pub mod fixed;
pub mod color;
pub mod quantize;
pub mod kernel;
pub mod engine;
pub mod text;
pub mod mode;
pub mod error;
pub mod pipeline;
pub mod names;
pub mod opts;
