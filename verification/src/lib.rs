//! A Mandelbrot-set viewer core: a pixel-to-plane view transform, the
//! escape-time iteration, an HSV-based color mapping, and a full-frame
//! renderer, all over exact fixed-point arithmetic.
//!
//! Complex-plane coordinates are signed 64-bit integers counted in units
//! of `1 / COORD_ONE`; the zoom factor is a power of two held as its
//! exponent; color channels are integers counted in units of
//! `1 / COLOR_ONE`. The platform loop (window, mouse, key input, texture
//! upload) lives outside this crate and hands in plain pixel coordinates.

pub mod color;
pub mod escape;
pub mod fixed;
pub mod render;
pub mod view;
