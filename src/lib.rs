//! Verified core of a small path tracer: fixed-size tuples and axis
//! permutations, scalar ranges, 8-bit colors, the framebuffer and its scan
//! order, the stratified sub-pixel sampler, the Perlin permutation tables,
//! image-texture lookup and the bounding-volume pre-build partition.

pub mod ntuple;
pub mod geometry;
pub mod bvh;
pub mod color;
pub mod image;
pub mod sampler;
pub mod perlin;
pub mod seq_facts;
pub mod texture;
