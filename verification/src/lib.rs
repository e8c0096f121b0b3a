//! A minimal 2D software-rendering engine.
//!
//! The crate owns a pixel framebuffer, runs a fixed per-frame update loop
//! that hands the framebuffer to a sequence of registered drawing plugins,
//! and provides those plugins with primitive drawing operations plus a CPU
//! triangle rasterizer with an affine transform pipeline and texture/color
//! interpolation.
//!
//! All geometry is carried in signed 16.16 fixed-point coordinates (see
//! [`fixed`]), so every arithmetic step of the pipeline is exact integer
//! arithmetic with a stated contract.

pub mod auxiliar;
pub mod color;
pub mod engine;
pub mod fixed;
pub mod raster;
pub mod shape;
pub mod texture;
pub mod transform;
