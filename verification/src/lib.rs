//! Constructive solid geometry on signed distance fields.
//!
//! A shape is a graph of primitives (spheres, planes) and operations on them
//! (union, intersection, exclusion, subtraction), held in one sequence in
//! which every operation stands behind its operands. Shapes are built by
//! joining graphs, equal entries are folded together, and a shape is
//! evaluated to its signed distance from a point, marched along a ray, or
//! written out as records of fixed size for a shader.
//!
//! Numbers are binary32 values held as bit patterns ([`Scalar`]). What is
//! exact on them is computed here; what rounds is asked of an arithmetic that
//! the caller supplies (see [`math`]).

pub mod eval;
pub mod folding;
pub mod gpu;
pub mod graph;
pub mod laws;
pub mod math;
pub mod node;
pub mod scalar;
pub mod sdf;
pub mod wire;

pub use crate::eval::{MarchLimits, Raymarch, MAX_DIST_BITS, MAX_ITER, MIN_DIST_BITS};
pub use crate::gpu::{GpuDistance, GpuMaterial};
pub use crate::graph::Graph;
pub use crate::math::{Op, Vec3, VectorError};
pub use crate::node::{Color, Distance, Material};
pub use crate::scalar::Scalar;
pub use crate::sdf::Sdf;
