//! A verified RAW development core: demosaicing, color calibration, highlight
//! recovery, default-crop geometry, chroma denoising and a lens-correction
//! coefficient resolver.
//!
//! Samples are fixed-point integers: [`fixed::UNIT`] stands for the display
//! white point (1.0). Values above it are highlight headroom.
pub mod fixed;
pub mod geometry;
pub mod intermediate;
pub mod demosaic;
pub mod calibrate;
pub mod highlight;
pub mod develop;
pub mod lens;
pub mod denoise;
pub mod text;
pub mod metadata;
