//! Filters over point clouds.

pub mod utility;
pub mod voxel_grid;

pub use voxel_grid::VoxelGrid;
