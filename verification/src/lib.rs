//! A minimal 2-D chart rasterizer: an owned RGBA pixel canvas with
//! fill/set-pixel operations, a renderer that maps integer data points
//! into pixel space and draws axis lines and square markers, and a PNG
//! codec boundary.

pub mod canvas;
pub mod chart;
pub mod codec;
pub mod color;
pub mod error;
