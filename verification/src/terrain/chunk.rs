//! The chunk: a fixed-size grid of voxels and its place on the chunk grid.
use vstd::prelude::*;

verus! {

/// Horizontal extent of a chunk, in voxels, along both `x` and `z`.
pub const CHUNK_SIZE: i32 = 16;

/// Vertical extent of a chunk, in voxels.
pub const MAX_HEIGHT: i32 = 256;

/// Number of voxels in one chunk.
pub const CHUNK_VOLUME: usize = 65536;

/// Whether `(x, y, z)` names a voxel inside a chunk.
pub open spec fn in_grid(x: int, y: int, z: int) -> bool {
    0 <= x < 16 && 0 <= y < 256 && 0 <= z < 16
}

/// Position of the voxel `(x, y, z)` in the flat voxel sequence.
pub open spec fn voxel_index(x: int, y: int, z: int) -> int {
    x + z * 16 + y * 256
}

/// Occupancy of `(x, y, z)` in the grid `voxels`; everything outside the grid
/// is open air.
pub open spec fn occupied(voxels: Seq<bool>, x: int, y: int, z: int) -> bool {
    in_grid(x, y, z) && voxels[voxel_index(x, y, z)]
}

/// Occupancy of `(x, y, z)` in a chunk's voxels. Coordinates outside the
/// chunk are answered with open air, so that no read ever leaves the grid.
pub fn get_voxel(voxels: &[bool], x: i32, y: i32, z: i32) -> (full: bool)
    requires
        voxels@.len() == 65536,
    ensures
        full == occupied(voxels@, x as int, y as int, z as int),
{
    if x < 0 || x >= CHUNK_SIZE || y < 0 || y >= MAX_HEIGHT || z < 0 || z >= CHUNK_SIZE {
        return false;
    }
    let index = (x + z * CHUNK_SIZE + y * CHUNK_SIZE * CHUNK_SIZE) as usize;
    voxels[index]
}

/// One chunk of the world: its voxels and its coordinates on the chunk grid.
pub struct Chunk {
    pub voxels: Vec<bool>,
    pub chunk_x: i32,
    pub chunk_z: i32,
}

impl Chunk {
    /// A chunk holds exactly one voxel for each cell of the grid.
    pub open spec fn wf(&self) -> bool {
        self.voxels@.len() == 65536
    }

    pub fn new(voxels: Vec<bool>, chunk_x: i32, chunk_z: i32) -> (chunk: Self)
        ensures
            chunk.voxels == voxels,
            chunk.chunk_x == chunk_x,
            chunk.chunk_z == chunk_z,
    {
        Self { voxels, chunk_x, chunk_z }
    }
}

} // verus!
