//! A small 2D/3D game-framework core: an immediate-mode batching renderer
//! with a CPU-side vertex buffer, shape and collision math, a glyph atlas,
//! and the value types (colors, cameras, projections, transforms) that the
//! renderer's draw state is made of.
//!
//! Coordinates and color channels are fixed-point numbers: an `i64` counts
//! units of `1 / FP_ONE`. The GPU-facing side (shader compilation, buffer
//! uploads, the actual draw submission) lives outside this crate; the
//! renderer here produces an ordered, coalesced list of draw calls and an
//! execution plan for a frame.

pub mod color;
pub mod common;
pub mod fixed;
pub mod geometry;
pub mod glyph_atlas;
pub mod input;
pub mod mesh;
pub mod renderer;
pub mod shapes;
pub mod vectors;
pub mod vertex_buffer;
