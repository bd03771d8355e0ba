//! Dense packing of bounded 3-D chunk coordinates into one `u32`, and a small
//! family of deterministic streaming hashers for keys made that way.
pub mod chunks;
pub mod coord;
pub mod hasher;

pub use coord::VoxelChunkIndex;
pub use hasher::{FibBuildHasher, FibHasher, IdentityHasher, SummingHasher};
