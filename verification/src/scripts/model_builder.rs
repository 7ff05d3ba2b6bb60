//! Building a voxel model: the offline planner and the online builder.

pub mod clustering;
pub mod export;
pub mod generation;
pub mod runtime;
