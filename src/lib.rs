//! Escape-time fractal engine: frame layout, parallel frame rendering,
//! sub-pixel supersampling, the escape loop and the color decisions, and the
//! RGBA adapter for a display buffer.

pub mod color;
pub mod escape;
pub mod frame;
pub mod render;
pub mod report;
pub mod sample;
