//! Cube-sphere voxel terrain: chunk addressing, seam-aware chunk filling,
//! and the lifecycle of chunks that are generated in the background.

pub mod array_utils;
pub mod biosphere;
pub mod block;
pub mod chunk;
pub mod planet;
pub mod generation;
pub mod structure;
pub mod planet_generator;
pub mod init_world;
pub mod netty;
pub mod persistence;
