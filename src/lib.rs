//! A software triangle rasterizer: screen-space triangles are split into two
//! scanline-fillable halves, walked with an integer Bresenham edge tracer,
//! shaded through exact barycentric weights and written through a depth-tested
//! framebuffer.
pub mod math;
pub mod renderer;
pub mod render_utils;
pub mod geometry;
pub mod texture;
