//! Voxelization of tetrahedral meshes.
//!
//! A mesh's points are fixed-point integers (`geometry`); each tetrahedron's
//! barycentric coordinates are computed exactly from signed volumes
//! (`containment`); the voxel centers of the mesh's rounded bounding box are
//! enumerated once (`lattice`); and the voxels whose centers lie in some
//! tetrahedron are marked in an occupancy grid (`grid`, `voxelize`). The
//! general facts about the result are proved in `laws`.

use vstd::prelude::*;

pub mod geometry;
pub mod containment;
pub mod grid;
pub mod lattice;
pub mod laws;
pub mod voxelize;

pub use voxelize::{voxelize, Mesh, VoxelModel, VoxelizeError};

verus! {

} // verus!
