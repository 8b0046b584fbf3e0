//! A palette-quantization and dithering engine for pixel-art rendering.
//!
//! The engine converts a full-color RGBA grid into one drawn with a fixed
//! palette. Color comparisons run in CIE Lab space over exact fixed-point
//! integer arithmetic (milli-units), so every decision the engine makes is
//! specified and machine-checked: perceptual distances, nearest-color
//! matching, error-diffusion kernels with raster or serpentine scan order,
//! Bayer-matrix and threshold-gated ordered variants, and the algorithm
//! selector that dispatches on a name.
pub mod fixed;
pub mod trig;
pub mod color;
pub mod grid;
pub mod matcher;
pub mod kernel;
pub mod diffusion;
pub mod ordered;
pub mod selective;
pub mod edge;
pub mod text;
pub mod palette;
pub mod selector;
