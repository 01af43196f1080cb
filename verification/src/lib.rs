//! Block picking for a flat voxel grid.
//!
//! The crate lays out a square chunk of blocks, decides which block a pick
//! ray selects, and keeps the highlight bookkeeping of a scene consistent
//! from frame to frame. All arithmetic on real numbers is done by the host;
//! the crate receives single-precision values as bit patterns and reasons
//! about their order only.

pub mod crossing;
pub mod entity;
pub mod frame;
pub mod grid;
pub mod materials;
pub mod pick;
pub mod scalar;
pub mod scene;
