//! The terrain generator: from the levels of a height field to the voxels of
//! a chunk.
//!
//! The height field itself is a noise function over the plane. Its sampling
//! is left to the caller, who hands over one level for each column of a
//! chunk: the noise at that column, scaled to the terrain's vertical range and
//! cut to a whole number. Everything from there on is decided here: which
//! columns a chunk is made of, how a level becomes a height, and which voxels
//! a height fills.
use vstd::prelude::*;
use crate::terrain::chunk::{in_grid, occupied, voxel_index};

verus! {

/// Lowest terrain height: every column holds at least the voxels 0 and 1.
pub const MIN_TERRAIN_HEIGHT: i32 = 1;

/// Greatest terrain height, which leaves the top of the chunk free.
pub const MAX_TERRAIN_HEIGHT: i32 = 254;

/// Number of columns in one chunk.
pub const CHUNK_COLUMNS: usize = 256;

/// Place of the column `(x, z)` of a chunk among its columns.
pub open spec fn column_index(x: int, z: int) -> int {
    x + z * 16
}

/// World coordinate of the local coordinate `local` of chunk number `chunk`
/// along one horizontal axis.
pub open spec fn world_coordinate(chunk: int, local: int) -> int {
    chunk * 16 + local
}

/// The terrain height for a sampled level: the level itself, kept within 1
/// and 254.
pub open spec fn terrain_height(level: int) -> int {
    if level < 1 {
        1
    } else if level > 254 {
        254
    } else {
        level
    }
}

/// The voxels of the chunk whose columns have the sampled levels `levels`:
/// in each column the voxels from the ground up to the terrain height are
/// occupied, and those above it are not.
pub open spec fn terrain(levels: Seq<i32>) -> Seq<bool> {
    Seq::new(65536, |i: int| i / 256 <= terrain_height(levels[i % 256] as int))
}

/// What it means for `voxels` to be the terrain over `levels`, column by
/// column.
pub open spec fn columns_filled(voxels: Seq<bool>, levels: Seq<i32>) -> bool {
    &&& voxels.len() == 65536
    &&& forall|x: int, y: int, z: int|
        in_grid(x, y, z) ==> (#[trigger] occupied(voxels, x, y, z) <==> y <= terrain_height(
            levels[column_index(x, z)] as int,
        ))
}

/// In the generated terrain every column is occupied from the ground up to
/// its height and empty above.
pub proof fn terrain_fills_columns(levels: Seq<i32>)
    ensures
        columns_filled(terrain(levels), levels),
{
    assert forall|x: int, y: int, z: int| in_grid(x, y, z) implies (#[trigger] occupied(
        terrain(levels),
        x,
        y,
        z,
    ) <==> y <= terrain_height(levels[column_index(x, z)] as int)) by {
        let i = voxel_index(x, y, z);
        assert(i / 256 == y && i % 256 == column_index(x, z));
    }
}

/// The levels of its columns determine a chunk's voxels: two grids filled
/// over the same levels are the same grid, voxel for voxel.
pub proof fn terrain_determined_by_levels(a: Seq<bool>, b: Seq<bool>, levels: Seq<i32>)
    requires
        columns_filled(a, levels),
        columns_filled(b, levels),
    ensures
        a == b,
{
    assert forall|i: int| 0 <= i < 65536 implies a[i] == b[i] by {
        let x = i % 16;
        let z = (i / 16) % 16;
        let y = i / 256;
        assert(in_grid(x, y, z) && voxel_index(x, y, z) == i);
        assert(occupied(a, x, y, z) == a[i]);
        assert(occupied(b, x, y, z) == b[i]);
    }
    assert(a =~= b);
}

/// Generator of the terrain of one world, which its seed identifies.
pub struct TerrainGenerator {
    seed: u32,
}

impl TerrainGenerator {
    /// The seed the generator was made with.
    pub closed spec fn spec_seed(&self) -> u32 {
        self.seed
    }

    /// A generator for the world with the given seed.
    pub fn new(seed: u32) -> (generator: Self)
        ensures
            generator.spec_seed() == seed,
    {
        Self { seed }
    }

    /// The seed of the world's height field.
    pub fn seed(&self) -> (seed: u32)
        ensures
            seed == self.spec_seed(),
    {
        self.seed
    }

    /// The world coordinates `(x, z)` of the columns of the chunk at
    /// `(chunk_x, chunk_z)`, in the order in which their levels are handed to
    /// `generate_chunk`.
    pub fn columns(&self, chunk_x: i32, chunk_z: i32) -> (columns: Vec<(i64, i64)>)
        ensures
            columns@.len() == 256,
            forall|x: int, z: int|
                0 <= x < 16 && 0 <= z < 16 ==> #[trigger] columns@[column_index(x, z)] == (
                    world_coordinate(chunk_x as int, x) as i64,
                    world_coordinate(chunk_z as int, z) as i64,
                ),
    {
        let world_x_base: i64 = (chunk_x as i64) * 16;
        let world_z_base: i64 = (chunk_z as i64) * 16;
        let mut columns: Vec<(i64, i64)> = Vec::with_capacity(CHUNK_COLUMNS);
        let mut z: i64 = 0;
        while z < 16
            invariant
                0 <= z <= 16,
                world_x_base == chunk_x * 16,
                world_z_base == chunk_z * 16,
                columns@.len() == z * 16,
                forall|i: int, k: int|
                    0 <= i < 16 && 0 <= k < z ==> #[trigger] columns@[column_index(i, k)] == (
                        world_coordinate(chunk_x as int, i) as i64,
                        world_coordinate(chunk_z as int, k) as i64,
                    ),
            decreases 16 - z,
        {
            let mut x: i64 = 0;
            while x < 16
                invariant
                    0 <= z < 16,
                    0 <= x <= 16,
                    world_x_base == chunk_x * 16,
                    world_z_base == chunk_z * 16,
                    columns@.len() == z * 16 + x,
                    forall|i: int, k: int|
                        0 <= i < 16 && 0 <= k < 16 && (k < z || (k == z && i < x))
                            ==> #[trigger] columns@[column_index(i, k)] == (
                            world_coordinate(chunk_x as int, i) as i64,
                            world_coordinate(chunk_z as int, k) as i64,
                        ),
                decreases 16 - x,
            {
                columns.push((world_x_base + x, world_z_base + z));
                x = x + 1;
            }
            z = z + 1;
        }
        columns
    }

    /// The terrain height of a column whose sampled level is `level`: never
    /// below 1 and never above 254, so that a column always holds ground and
    /// never reaches the top of a chunk.
    pub fn get_height(&self, level: i32) -> (height: i32)
        ensures
            height == terrain_height(level as int),
            1 <= height <= 254,
    {
        if level < MIN_TERRAIN_HEIGHT {
            MIN_TERRAIN_HEIGHT
        } else if level > MAX_TERRAIN_HEIGHT {
            MAX_TERRAIN_HEIGHT
        } else {
            level
        }
    }

    /// The voxels of a chunk whose columns have the sampled levels `levels`,
    /// given in the order of `columns`: each column is filled from the ground
    /// up to its terrain height.
    pub fn generate_chunk(&self, levels: &Vec<i32>) -> (voxels: Vec<bool>)
        requires
            levels@.len() == 256,
        ensures
            voxels@ == terrain(levels@),
            columns_filled(voxels@, levels@),
    {
        let mut voxels: Vec<bool> = vec![false; 65536];
        // Heights first
        let mut heights: Vec<i32> = Vec::with_capacity(CHUNK_COLUMNS);
        let mut c: usize = 0;
        while c < 256
            invariant
                0 <= c <= 256,
                levels@.len() == 256,
                heights@.len() == c,
                forall|k: int|
                    0 <= k < c ==> #[trigger] heights@[k] == terrain_height(levels@[k] as int),
            decreases 256 - c,
        {
            heights.push(self.get_height(levels[c]));
            c = c + 1;
        }
        // Then the voxels of each column, up to its height
        let mut c: usize = 0;
        while c < 256
            invariant
                0 <= c <= 256,
                levels@.len() == 256,
                heights@.len() == 256,
                forall|k: int|
                    0 <= k < 256 ==> #[trigger] heights@[k] == terrain_height(levels@[k] as int),
                voxels@.len() == 65536,
                forall|i: int|
                    0 <= i < 65536 ==> #[trigger] voxels@[i] == (i % 256 < c && i / 256
                        <= heights@[i % 256]),
            decreases 256 - c,
        {
            let height = heights[c];
            let mut y: i32 = 0;
            while y <= height
                invariant
                    0 <= c < 256,
                    0 <= y <= height + 1,
                    height == heights@[c as int],
                    1 <= height <= 254,
                    heights@.len() == 256,
                    voxels@.len() == 65536,
                    forall|i: int|
                        0 <= i < 65536 ==> #[trigger] voxels@[i] == ((i % 256 < c && i / 256
                            <= heights@[i % 256]) || (i % 256 == c && i / 256 < y)),
                decreases height + 1 - y,
            {
                let index = c + (y as usize) * 256;
                voxels.set(index, true);
                y = y + 1;
            }
            c = c + 1;
        }
        proof {
            assert(voxels@ =~= terrain(levels@));
            terrain_fills_columns(levels@);
        }
        voxels
    }
}

} // verus!
