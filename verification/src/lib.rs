//! Procedural grass generation: populates a triangulated surface with
//! grass-blade instance records and organizes them into spatial chunks.
//!
//! All geometry is carried in fixed-point world units (see [`fixed`]), so
//! the whole generation pipeline - triangle area, density-scaled instance
//! counts, barycentric surface sampling, and chunk indexing - is verified.

pub mod chunk;
pub mod density;
pub mod fixed;
pub mod grass;
pub mod mesh;
mod rng;
pub mod sampler;

pub use fixed::Vec2Fx;
pub use fixed::Vec3Fx;
