//! A small 2D graphics abstraction: pixel-space geometry, shader graphs
//! built from typed operations, and the analyses that turn such a graph
//! into GLSL source text.

pub mod batch;
pub mod compiler;
pub mod context;
pub mod dataflow;
pub mod gl;
pub mod graph;
pub mod resources;
pub mod shader;
pub mod texture;
pub mod trace;
