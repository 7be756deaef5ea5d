//! Rendering of a styled block of text into a fixed-size RGBA raster.
//!
//! Lengths and positions are fixed-point numbers with six fractional bits
//! (1/64 of a pixel). Shaping and rasterisation are done by collaborators;
//! this library decides what they are asked for and paints what they return.

pub mod canvas;
pub mod layout;
pub mod render;
pub mod measure;
