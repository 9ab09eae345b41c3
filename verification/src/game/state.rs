//! Chunk streaming: which chunks are loaded, and how that set follows the
//! viewer.
//!
//! The world is cut into chunks on a horizontal grid. The chunks within the
//! render distance of the viewer's chunk, a square of chunk coordinates, are
//! the ones that have to be loaded. Whenever the viewer's position is
//! reported, the chunks that have left the square are dropped and the ones
//! that have entered it are generated.
//!
//! The table of loaded chunks is a vector in which no coordinate occurs
//! twice; the set of loaded coordinates is the set of coordinates of its
//! entries, so the two cannot drift apart.
use vstd::prelude::*;
use crate::game::streaming::{
    all_chunks_wf,
    beyond,
    chunk_of,
    coords,
    in_range,
    kept,
    lemma_target_seq_index,
    loaded_of,
    missing,
    not_in,
    pass_reaches_target,
    reconciled,
    settled_table_stays,
    square_fits,
    stale,
    target_seq,
    target_set,
    viewer_chunk,
    within,
};
use crate::terrain::chunk::Chunk;
use crate::terrain::generator::{terrain, TerrainGenerator};

verus! {

/// Why a configuration was turned down.
#[derive(Clone, Copy, Debug, PartialEq, Eq)]
pub enum ConfigError {
    /// The render distance has to be at least one chunk.
    RenderDistanceNotPositive,
}

/// The loaded part of the world: the table of chunks around the viewer, the
/// render distance and the generator of the terrain.
pub struct GameState {
    terrain_generator: TerrainGenerator,
    render_distance: i32,
    chunks: Vec<Chunk>,
    chunks_updated: bool,
}

impl GameState {
    /// The table of loaded chunks.
    pub closed spec fn table(&self) -> Seq<Chunk> {
        self.chunks@
    }

    /// The render distance, in chunks.
    pub closed spec fn radius(&self) -> int {
        self.render_distance as int
    }

    /// Whether the last pass changed the table.
    pub closed spec fn updated(&self) -> bool {
        self.chunks_updated
    }

    /// The seed of the terrain.
    pub closed spec fn world_seed(&self) -> u32 {
        self.terrain_generator.spec_seed()
    }

    /// The set of loaded chunk coordinates.
    pub open spec fn loaded(&self) -> Set<(i32, i32)> {
        loaded_of(self.table())
    }

    /// The render distance is positive, no coordinate has two chunks, and
    /// every chunk holds a full grid of voxels.
    pub open spec fn wf(&self) -> bool {
        &&& self.radius() > 0
        &&& coords(self.table()).no_duplicates()
        &&& all_chunks_wf(self.table())
    }

    /// A world with the given seed and render distance and nothing loaded
    /// yet. A render distance that is not positive is turned down.
    pub fn new(seed: u32, render_distance: i32) -> (state: Result<Self, ConfigError>)
        ensures
            render_distance <= 0 ==> state == Err::<Self, ConfigError>(
                ConfigError::RenderDistanceNotPositive,
            ),
            render_distance > 0 ==> state.is_ok() && state.unwrap().wf() && state.unwrap().radius()
                == render_distance && state.unwrap().table() == Seq::<Chunk>::empty()
                && !state.unwrap().updated() && state.unwrap().world_seed() == seed,
    {
        if render_distance <= 0 {
            return Err(ConfigError::RenderDistanceNotPositive);
        }
        Ok(
            Self {
                terrain_generator: TerrainGenerator::new(seed),
                render_distance,
                chunks: Vec::new(),
                chunks_updated: false,
            },
        )
    }

    /// The render distance, in chunks.
    pub fn render_distance(&self) -> (r: i32)
        ensures
            r == self.radius(),
    {
        self.render_distance
    }

    /// The generator of the world's terrain.
    pub fn terrain_generator(&self) -> (generator: &TerrainGenerator)
        ensures
            generator.spec_seed() == self.world_seed(),
    {
        &self.terrain_generator
    }

    /// Whether the last call of `update_chunks` loaded or unloaded a chunk.
    pub fn chunks_updated(&self) -> (updated: bool)
        ensures
            updated == self.updated(),
    {
        self.chunks_updated
    }

    /// The loaded chunks, each with its coordinates.
    pub fn chunks(&self) -> (chunks: &Vec<Chunk>)
        ensures
            chunks@ == self.table(),
    {
        &self.chunks
    }

    /// The coordinates of the chunk that holds the world position
    /// `(viewer_x, viewer_z)`: each coordinate divided by the chunk size and
    /// rounded down.
    pub fn get_current_chunk(viewer_x: i32, viewer_z: i32) -> (chunk: (i32, i32))
        ensures
            (chunk.0 as int, chunk.1 as int) == viewer_chunk(viewer_x, viewer_z),
    {
        (floor_to_chunk(viewer_x), floor_to_chunk(viewer_z))
    }

    /// Whether a chunk is loaded at `(chunk_x, chunk_z)`.
    pub fn is_loaded(&self, chunk_x: i32, chunk_z: i32) -> (found: bool)
        ensures
            found == self.loaded().contains((chunk_x, chunk_z)),
    {
        let mut i: usize = 0;
        while i < self.chunks.len()
            invariant
                0 <= i <= self.chunks@.len(),
                forall|p: int| 0 <= p < i ==> coords(self.chunks@)[p] != (chunk_x, chunk_z),
            decreases self.chunks@.len() - i,
        {
            if self.chunks[i].chunk_x == chunk_x && self.chunks[i].chunk_z == chunk_z {
                assert(coords(self.chunks@)[i as int] == (chunk_x, chunk_z));
                return true;
            }
            i = i + 1;
        }
        false
    }

    /// The chunk coordinates that have to be loaded for a viewer at
    /// `(viewer_x, viewer_z)`: the square of coordinates within the render
    /// distance of the viewer's chunk, in order.
    pub fn get_chunks_in_range(&self, viewer_x: i32, viewer_z: i32) -> (target: Vec<(i32, i32)>)
        requires
            square_fits(viewer_chunk(viewer_x, viewer_z), self.radius()),
        ensures
            target@ == target_seq(viewer_chunk(viewer_x, viewer_z), self.radius()),
    {
        let (center_x, center_z) = Self::get_current_chunk(viewer_x, viewer_z);
        let r: i64 = self.render_distance as i64;
        let n: i64 = 2 * r + 1;
        let x0: i64 = center_x as i64 - r;
        let z0: i64 = center_z as i64 - r;
        let ghost center = viewer_chunk(viewer_x, viewer_z);
        let ghost t = target_seq(center, r as int);
        let mut target: Vec<(i32, i32)> = Vec::new();
        let mut a: i64 = 0;
        while a < n
            invariant
                0 <= a <= n,
                n == 2 * r + 1,
                r == self.radius(),
                x0 == center.0 - r,
                z0 == center.1 - r,
                square_fits(center, r as int),
                t == target_seq(center, r as int),
                target@.len() == a * n,
                forall|i: int| 0 <= i < target@.len() ==> target@[i] == t[i],
            decreases n - a,
        {
            let mut b: i64 = 0;
            while b < n
                invariant
                    0 <= a < n,
                    0 <= b <= n,
                    n == 2 * r + 1,
                    r == self.radius(),
                    x0 == center.0 - r,
                    z0 == center.1 - r,
                    square_fits(center, r as int),
                    t == target_seq(center, r as int),
                    target@.len() == a * n + b,
                    forall|i: int| 0 <= i < target@.len() ==> target@[i] == t[i],
                decreases n - b,
            {
                proof {
                    lemma_target_seq_index(center, r as int, a as int, b as int);
                }
                target.push(((x0 + a) as i32, (z0 + b) as i32));
                b = b + 1;
            }
            proof {
                assert((a + 1) * n == a * n + n) by (nonlinear_arith);
            }
            a = a + 1;
        }
        proof {
            assert(target@ =~= t);
        }
        target
    }

    /// The coordinates that the next call of `update_chunks` for a viewer at
    /// `(viewer_x, viewer_z)` will load: those of the target that are not
    /// loaded, in the order of the target. The levels of their columns are
    /// what `update_chunks` asks for.
    pub fn chunks_to_load(&self, viewer_x: i32, viewer_z: i32) -> (to_load: Vec<(i32, i32)>)
        requires
            square_fits(viewer_chunk(viewer_x, viewer_z), self.radius()),
        ensures
            to_load@ == missing(
                self.loaded(),
                viewer_chunk(viewer_x, viewer_z),
                self.radius(),
            ),
    {
        let target = self.get_chunks_in_range(viewer_x, viewer_z);
        let ghost pred = not_in(self.loaded());
        let mut to_load: Vec<(i32, i32)> = Vec::new();
        let mut k: usize = 0;
        proof {
            assert(target@.take(0) =~= Seq::<(i32, i32)>::empty());
            target@.take(0).lemma_filter_len(pred);
        }
        while k < target.len()
            invariant
                0 <= k <= target@.len(),
                pred == not_in(self.loaded()),
                to_load@ == target@.take(k as int).filter(pred),
            decreases target@.len() - k,
        {
            let c = target[k];
            proof {
                assert(target@.take(k + 1) =~= target@.take(k as int).push(c));
                Seq::lemma_filter_push(target@.take(k as int), c, pred);
            }
            if !self.is_loaded(c.0, c.1) {
                to_load.push(c);
            }
            k = k + 1;
        }
        proof {
            assert(target@.take(target@.len() as int) =~= target@);
        }
        to_load
    }

    /// The coordinates of the chunks that the next call of `update_chunks`
    /// for a viewer at `(viewer_x, viewer_z)` will unload: those of the
    /// loaded chunks that lie outside the target, in the order of the table.
    pub fn chunks_to_unload(&self, viewer_x: i32, viewer_z: i32) -> (to_unload: Vec<(i32, i32)>)
        ensures
            to_unload@ == coords(
                stale(self.table(), viewer_chunk(viewer_x, viewer_z), self.radius()),
            ),
    {
        let (center_x, center_z) = Self::get_current_chunk(viewer_x, viewer_z);
        let ghost leaving = beyond(viewer_chunk(viewer_x, viewer_z), self.radius());
        let mut to_unload: Vec<(i32, i32)> = Vec::new();
        let mut k: usize = 0;
        proof {
            assert(self.chunks@.take(0) =~= Seq::<Chunk>::empty());
            self.chunks@.take(0).lemma_filter_len(leaving);
            assert(to_unload@ =~= coords(self.chunks@.take(0).filter(leaving)));
        }
        while k < self.chunks.len()
            invariant
                0 <= k <= self.chunks@.len(),
                (center_x as int, center_z as int) == viewer_chunk(viewer_x, viewer_z),
                leaving == beyond(viewer_chunk(viewer_x, viewer_z), self.radius()),
                to_unload@ == coords(self.chunks@.take(k as int).filter(leaving)),
            decreases self.chunks@.len() - k,
        {
            let chunk = &self.chunks[k];
            let inside = chunk_in_range(
                chunk.chunk_x,
                chunk.chunk_z,
                center_x,
                center_z,
                self.render_distance,
            );
            proof {
                let seen = self.chunks@.take(k as int);
                assert(self.chunks@.take(k + 1) =~= seen.push(*chunk));
                Seq::lemma_filter_push(seen, *chunk, leaving);
                assert(coords(seen.filter(leaving).push(*chunk)) =~= coords(
                    seen.filter(leaving),
                ).push((chunk.chunk_x, chunk.chunk_z)));
            }
            if !inside {
                to_unload.push((chunk.chunk_x, chunk.chunk_z));
            }
            k = k + 1;
        }
        proof {
            assert(self.chunks@.take(self.chunks@.len() as int) =~= self.chunks@);
        }
        to_unload
    }

    /// Brings the table in line with a viewer at `(viewer_x, viewer_z)`: the
    /// chunks outside the target are dropped, and one chunk is generated for
    /// each coordinate of the target that was not loaded, in the order of
    /// `chunks_to_load`, the chunk at place `j` from the levels `samples[j]`.
    /// The chunks that stay are not touched and keep their order. Says
    /// whether anything was loaded or unloaded.
    pub fn update_chunks(&mut self, viewer_x: i32, viewer_z: i32, samples: &Vec<Vec<i32>>) -> (changed:
        bool)
        requires
            old(self).wf(),
            square_fits(viewer_chunk(viewer_x, viewer_z), old(self).radius()),
            samples@.len() == missing(
                old(self).loaded(),
                viewer_chunk(viewer_x, viewer_z),
                old(self).radius(),
            ).len(),
            forall|j: int| 0 <= j < samples@.len() ==> (#[trigger] samples@[j])@.len() == 256,
        ensures
            final(self).wf(),
            final(self).radius() == old(self).radius(),
            final(self).world_seed() == old(self).world_seed(),
            final(self).loaded() == target_set(viewer_chunk(viewer_x, viewer_z), old(self).radius()),
            final(self).table().len() == (2 * old(self).radius() + 1) * (2 * old(self).radius()
                + 1),
            reconciled(
                old(self).table(),
                final(self).table(),
                viewer_chunk(viewer_x, viewer_z),
                old(self).radius(),
                samples@,
            ),
            changed == (stale(
                old(self).table(),
                viewer_chunk(viewer_x, viewer_z),
                old(self).radius(),
            ).len() > 0 || samples@.len() > 0),
            final(self).updated() == changed,
            old(self).loaded() == target_set(viewer_chunk(viewer_x, viewer_z), old(self).radius())
                ==> !changed && final(self).table() == old(self).table(),
    {
        let (center_x, center_z) = Self::get_current_chunk(viewer_x, viewer_z);
        let to_unload = self.chunks_to_unload(viewer_x, viewer_z);
        let to_load = self.chunks_to_load(viewer_x, viewer_z);
        let changed = to_load.len() > 0 || to_unload.len() > 0;
        self.unload_outside(center_x, center_z);
        self.load_generated(&to_load, samples);
        self.chunks_updated = changed;
        proof {
            pass_reaches_target(
                old(self).table(),
                self.table(),
                viewer_chunk(viewer_x, viewer_z),
                old(self).radius(),
                samples@,
            );
            if old(self).loaded() == target_set(
                viewer_chunk(viewer_x, viewer_z),
                old(self).radius(),
            ) {
                settled_table_stays(
                    old(self).table(),
                    viewer_chunk(viewer_x, viewer_z),
                    old(self).radius(),
                );
            }
        }
        changed
    }

    /// Drops the chunks that lie further than the render distance from the
    /// chunk `(center_x, center_z)`.
    fn unload_outside(&mut self, center_x: i32, center_z: i32)
        ensures
            final(self).chunks@ == kept(
                old(self).chunks@,
                (center_x as int, center_z as int),
                old(self).render_distance as int,
            ),
            final(self).render_distance == old(self).render_distance,
            final(self).terrain_generator == old(self).terrain_generator,
            final(self).chunks_updated == old(self).chunks_updated,
    {
        let r = self.render_distance;
        let ghost center = (center_x as int, center_z as int);
        let ghost old_table = self.chunks@;
        let ghost staying = within(center, r as int);
        let mut i: usize = 0;
        let ghost mut seen: int = 0;
        proof {
            assert(old_table.take(0) =~= Seq::<Chunk>::empty());
            old_table.take(0).lemma_filter_len(staying);
            assert(self.chunks@ =~= old_table.take(0).filter(staying) + old_table.skip(0));
        }
        while i < self.chunks.len()
            invariant
                0 <= seen <= old_table.len(),
                center == (center_x as int, center_z as int),
                staying == within(center, r as int),
                i == old_table.take(seen).filter(staying).len(),
                self.chunks@ == old_table.take(seen).filter(staying) + old_table.skip(seen),
                self.render_distance == r,
                self.terrain_generator == old(self).terrain_generator,
                self.chunks_updated == old(self).chunks_updated,
            decreases old_table.len() - seen,
        {
            let inside = chunk_in_range(
                self.chunks[i].chunk_x,
                self.chunks[i].chunk_z,
                center_x,
                center_z,
                r,
            );
            proof {
                let chunk = old_table[seen];
                assert(self.chunks@[i as int] == chunk);
                assert(old_table.take(seen + 1) =~= old_table.take(seen).push(chunk));
                Seq::lemma_filter_push(old_table.take(seen), chunk, staying);
            }
            if inside {
                i = i + 1;
            } else {
                self.chunks.remove(i);
            }
            proof {
                seen = seen + 1;
                assert(self.chunks@ =~= old_table.take(seen).filter(staying) + old_table.skip(
                    seen,
                ));
            }
        }
        proof {
            assert(old_table.take(old_table.len() as int) =~= old_table);
            assert(self.chunks@ =~= old_table.filter(staying));
        }
    }

    /// Adds one chunk for each coordinate of `to_load`, generated from the
    /// levels at the same place of `samples`.
    fn load_generated(&mut self, to_load: &Vec<(i32, i32)>, samples: &Vec<Vec<i32>>)
        requires
            to_load@.len() == samples@.len(),
            forall|j: int| 0 <= j < samples@.len() ==> (#[trigger] samples@[j])@.len() == 256,
        ensures
            final(self).chunks@.len() == old(self).chunks@.len() + to_load@.len(),
            forall|p: int|
                0 <= p < old(self).chunks@.len() ==> #[trigger] final(self).chunks@[p] == old(
                    self,
                ).chunks@[p],
            forall|q: int|
                0 <= q < to_load@.len() ==> {
                    let chunk = #[trigger] final(self).chunks@[old(self).chunks@.len() + q];
                    &&& (chunk.chunk_x, chunk.chunk_z) == to_load@[q]
                    &&& chunk.voxels@ == terrain(samples@[q]@)
                },
            final(self).render_distance == old(self).render_distance,
            final(self).terrain_generator == old(self).terrain_generator,
            final(self).chunks_updated == old(self).chunks_updated,
    {
        let ghost staying = self.chunks@;
        let mut k: usize = 0;
        while k < to_load.len()
            invariant
                0 <= k <= to_load@.len(),
                to_load@.len() == samples@.len(),
                forall|j: int| 0 <= j < samples@.len() ==> (#[trigger] samples@[j])@.len() == 256,
                self.chunks@.len() == staying.len() + k,
                forall|p: int| 0 <= p < staying.len() ==> #[trigger] self.chunks@[p] == staying[p],
                forall|q: int|
                    0 <= q < k ==> {
                        let chunk = #[trigger] self.chunks@[staying.len() + q];
                        &&& (chunk.chunk_x, chunk.chunk_z) == to_load@[q]
                        &&& chunk.voxels@ == terrain(samples@[q]@)
                    },
                self.render_distance == old(self).render_distance,
                self.terrain_generator == old(self).terrain_generator,
                self.chunks_updated == old(self).chunks_updated,
            decreases to_load@.len() - k,
        {
            let (chunk_x, chunk_z) = to_load[k];
            let voxels = self.terrain_generator.generate_chunk(&samples[k]);
            self.chunks.push(Chunk::new(voxels, chunk_x, chunk_z));
            k = k + 1;
        }
    }
}

/// Number of the chunk that holds the world coordinate `world`.
fn floor_to_chunk(world: i32) -> (chunk: i32)
    ensures
        chunk == chunk_of(world as int),
{
    if world >= 0 {
        world / 16
    } else {
        let below: i64 = (15 - (world as i64)) / 16;
        (0 - below) as i32
    }
}

/// Whether the chunk at `(chunk_x, chunk_z)` lies within `r` chunks of
/// `(center_x, center_z)`.
fn chunk_in_range(chunk_x: i32, chunk_z: i32, center_x: i32, center_z: i32, r: i32) -> (inside:
    bool)
    ensures
        inside == in_range((chunk_x, chunk_z), (center_x as int, center_z as int), r as int),
{
    let dx: i64 = (chunk_x as i64) - (center_x as i64);
    let dz: i64 = (chunk_z as i64) - (center_z as i64);
    let r: i64 = r as i64;
    -r <= dx && dx <= r && -r <= dz && dz <= r
}

} // verus!
