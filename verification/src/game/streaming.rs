//! The rules of chunk streaming, as mathematics: which chunk coordinates a
//! viewer needs, what one pass of loading and unloading makes of a table of
//! chunks, and what follows from that.
use vstd::prelude::*;
use vstd::arithmetic::div_mod::{
    lemma_fundamental_div_mod,
    lemma_fundamental_div_mod_converse,
    lemma_mod_bound,
};
use vstd::seq_lib::seq_to_set_is_finite;
use crate::sequences::{lemma_filter_all, lemma_filter_no_duplicates};
use crate::terrain::chunk::Chunk;
use crate::terrain::generator::terrain;

verus! {

/// Number of the chunk that holds the world coordinate `world`, along one
/// horizontal axis: `world` divided by the chunk size, rounded down.
pub open spec fn chunk_of(world: int) -> int {
    world / 16
}

/// The chunk that holds a viewer at the world coordinates `(x, z)`.
pub open spec fn viewer_chunk(viewer_x: i32, viewer_z: i32) -> (int, int) {
    (chunk_of(viewer_x as int), chunk_of(viewer_z as int))
}

/// Whether the chunk coordinate `c` lies within `r` chunks of `center` along
/// both axes.
pub open spec fn in_range(c: (i32, i32), center: (int, int), r: int) -> bool {
    center.0 - r <= c.0 <= center.0 + r && center.1 - r <= c.1 <= center.1 + r
}

/// Whether every coordinate within `r` chunks of `center` is a pair of `i32`.
pub open spec fn square_fits(center: (int, int), r: int) -> bool {
    &&& 0 <= r
    &&& i32::MIN <= center.0 - r && center.0 + r <= i32::MAX
    &&& i32::MIN <= center.1 - r && center.1 + r <= i32::MAX
}

/// The chunk coordinates that have to be loaded for a viewer in the chunk
/// `center` with render distance `r`.
pub open spec fn target_set(center: (int, int), r: int) -> Set<(i32, i32)> {
    Set::new(|c: (i32, i32)| in_range(c, center, r))
}

/// The same coordinates in a fixed order: by `x`, and by `z` where `x` is
/// the same.
pub open spec fn target_seq(center: (int, int), r: int) -> Seq<(i32, i32)> {
    Seq::new(
        ((2 * r + 1) * (2 * r + 1)) as nat,
        |i: int|
            ((center.0 - r + i / (2 * r + 1)) as i32, (center.1 - r + i % (2 * r + 1)) as i32),
    )
}

/// The coordinates of the chunks of a table, entry by entry.
pub open spec fn coords(table: Seq<Chunk>) -> Seq<(i32, i32)> {
    Seq::new(table.len(), |i: int| (table[i].chunk_x, table[i].chunk_z))
}

/// The set of coordinates that a table holds a chunk for.
pub open spec fn loaded_of(table: Seq<Chunk>) -> Set<(i32, i32)> {
    coords(table).to_set()
}

/// Whether every chunk of a table holds a full grid of voxels.
pub open spec fn all_chunks_wf(table: Seq<Chunk>) -> bool {
    forall|i: int| 0 <= i < table.len() ==> (#[trigger] table[i]).wf()
}

/// The test for a coordinate not being in `loaded`.
pub open spec fn not_in(loaded: Set<(i32, i32)>) -> spec_fn((i32, i32)) -> bool {
    |c: (i32, i32)| !loaded.contains(c)
}

/// The test for a chunk lying within `r` chunks of `center`.
pub open spec fn within(center: (int, int), r: int) -> spec_fn(Chunk) -> bool {
    |c: Chunk| in_range((c.chunk_x, c.chunk_z), center, r)
}

/// The test for a chunk lying further than `r` chunks from `center`.
pub open spec fn beyond(center: (int, int), r: int) -> spec_fn(Chunk) -> bool {
    |c: Chunk| !in_range((c.chunk_x, c.chunk_z), center, r)
}

/// The coordinates to load: those of the target that are not in `loaded`, in
/// the order of the target.
pub open spec fn missing(loaded: Set<(i32, i32)>, center: (int, int), r: int) -> Seq<(i32, i32)> {
    target_seq(center, r).filter(not_in(loaded))
}

/// The chunks that stay: those of the table that lie in the target, in the
/// order of the table.
pub open spec fn kept(table: Seq<Chunk>, center: (int, int), r: int) -> Seq<Chunk> {
    table.filter(within(center, r))
}

/// The chunks to unload: those of the table that lie outside the target.
pub open spec fn stale(table: Seq<Chunk>, center: (int, int), r: int) -> Seq<Chunk> {
    table.filter(beyond(center, r))
}

/// What a pass of loading and unloading makes of a table: the chunks that
/// stay come first, unchanged and in their order; after them comes one chunk
/// for each coordinate to load, in the order of `missing`, whose voxels are
/// the terrain over the levels sampled for it.
pub open spec fn reconciled(
    old_table: Seq<Chunk>,
    new_table: Seq<Chunk>,
    center: (int, int),
    r: int,
    samples: Seq<Vec<i32>>,
) -> bool {
    let staying = kept(old_table, center, r);
    let entering = missing(loaded_of(old_table), center, r);
    &&& new_table.len() == staying.len() + entering.len()
    &&& forall|p: int| 0 <= p < staying.len() ==> #[trigger] new_table[p] == staying[p]
    &&& forall|q: int|
        0 <= q < entering.len() ==> {
            let chunk = #[trigger] new_table[staying.len() + q];
            &&& (chunk.chunk_x, chunk.chunk_z) == entering[q]
            &&& chunk.voxels@ == terrain(samples[q]@)
        }
}

/// The target in order holds each coordinate of the target set once and
/// nothing else, so that the target set has `(2r + 1)²` coordinates.
pub proof fn target_has_square_size(center: (int, int), r: int)
    requires
        square_fits(center, r),
    ensures
        target_seq(center, r).no_duplicates(),
        target_seq(center, r).to_set() == target_set(center, r),
        target_set(center, r).finite(),
        target_set(center, r).len() == (2 * r + 1) * (2 * r + 1),
{
    let n = 2 * r + 1;
    let t = target_seq(center, r);
    assert(n * n >= 0) by (nonlinear_arith)
        requires
            n >= 0,
    ;
    assert forall|i: int| 0 <= i < t.len() implies 0 <= #[trigger] (i / n) < n && 0 <= i % n < n
        && i == (i / n) * n + i % n by {
        lemma_fundamental_div_mod(i, n);
        lemma_mod_bound(i, n);
        assert(0 <= i / n < n) by (nonlinear_arith)
            requires
                0 <= i < n * n,
                i == n * (i / n) + i % n,
                0 <= i % n < n,
                n > 0,
        ;
        assert(n * (i / n) == (i / n) * n) by (nonlinear_arith);
    }
    assert forall|i: int, j: int| 0 <= i < t.len() && 0 <= j < t.len() && i != j implies t[i]
        != t[j] by {
        assert(0 <= i / n < n && 0 <= j / n < n);
        if i / n == j / n {
            assert(i % n != j % n);
        }
    }
    assert forall|c: (i32, i32)| t.to_set().contains(c) <==> target_set(center, r).contains(
        c,
    ) by {
        if t.contains(c) {
            let i = choose|i: int| 0 <= i < t.len() && t[i] == c;
            assert(0 <= i / n < n);
        }
        if in_range(c, center, r) {
            let a = c.0 - (center.0 - r);
            let b = c.1 - (center.1 - r);
            lemma_target_seq_index(center, r, a, b);
            assert(t[a * n + b] == c);
        }
    }
    assert(t.to_set() =~= target_set(center, r));
    t.unique_seq_to_set();
    seq_to_set_is_finite(t);
}

/// What one pass of loading and unloading arrives at: the new table holds
/// the target, each coordinate once, and full grids of voxels; and where the
/// old table held the target already, the new one is the old one.
pub proof fn pass_reaches_target(
    old_table: Seq<Chunk>,
    new_table: Seq<Chunk>,
    center: (int, int),
    r: int,
    samples: Seq<Vec<i32>>,
)
    requires
        square_fits(center, r),
        coords(old_table).no_duplicates(),
        all_chunks_wf(old_table),
        reconciled(old_table, new_table, center, r, samples),
        forall|j: int| 0 <= j < samples.len() ==> (#[trigger] samples[j])@.len() == 256,
        samples.len() == missing(loaded_of(old_table), center, r).len(),
    ensures
        coords(new_table).no_duplicates(),
        all_chunks_wf(new_table),
        loaded_of(new_table) == target_set(center, r),
        new_table.len() == (2 * r + 1) * (2 * r + 1),
        loaded_of(old_table) == target_set(center, r) ==> new_table == old_table,
{
    let k = kept(old_table, center, r);
    let m = missing(loaded_of(old_table), center, r);
    let cn = coords(new_table);
    lemma_kept(old_table, center, r);
    lemma_missing(loaded_of(old_table), center, r);
    target_has_square_size(center, r);
    assert forall|q: int| 0 <= q < m.len() implies cn[k.len() + q] == #[trigger] m[q] by {
        let chunk = new_table[k.len() + q];
        assert((chunk.chunk_x, chunk.chunk_z) == m[q]);
    }
    assert forall|i: int| 0 <= i < new_table.len() implies (#[trigger] new_table[i]).wf() by {
        if i < k.len() {
            assert(new_table[i] == k[i]);
            assert(old_table.contains(k[i]));
        } else {
            let chunk = new_table[k.len() + (i - k.len())];
            assert(chunk.voxels@ == terrain(samples[i - k.len()]@));
        }
    }
    if loaded_of(old_table) == target_set(center, r) {
        settled_table_stays(old_table, center, r);
        assert(new_table =~= old_table);
    }
    assert forall|p: int| 0 <= p < k.len() implies cn[p] == coords(k)[p] && loaded_of(
        old_table,
    ).contains(#[trigger] cn[p]) && in_range(cn[p], center, r) by {
        assert(new_table[p] == k[p]);
        assert(loaded_of(k).contains(coords(k)[p]));
    }
    assert forall|q: int| 0 <= q < m.len() implies !loaded_of(old_table).contains(
        #[trigger] cn[k.len() + q],
    ) && in_range(cn[k.len() + q], center, r) by {
        assert(cn[k.len() + q] == m[q]);
        assert(m.contains(m[q]));
    }
    assert forall|i: int, j: int| 0 <= i < cn.len() && 0 <= j < cn.len() && i != j implies cn[i]
        != cn[j] by {
        if i < k.len() && j < k.len() {
            assert(coords(k)[i] != coords(k)[j]);
        } else if i >= k.len() && j >= k.len() {
            assert(m[i - k.len()] != m[j - k.len()]);
            assert(cn[k.len() + (i - k.len())] == m[i - k.len()]);
            assert(cn[k.len() + (j - k.len())] == m[j - k.len()]);
        } else if i < k.len() {
            assert(loaded_of(old_table).contains(cn[i]));
            assert(!loaded_of(old_table).contains(cn[k.len() + (j - k.len())]));
        } else {
            assert(loaded_of(old_table).contains(cn[j]));
            assert(!loaded_of(old_table).contains(cn[k.len() + (i - k.len())]));
        }
    }
    assert forall|c: (i32, i32)| cn.to_set().contains(c) <==> target_set(center, r).contains(
        c,
    ) by {
        if cn.contains(c) {
            let i = choose|i: int| 0 <= i < cn.len() && cn[i] == c;
            if i >= k.len() {
                assert(in_range(cn[k.len() + (i - k.len())], center, r));
            }
        }
        if in_range(c, center, r) {
            if loaded_of(old_table).contains(c) {
                assert(loaded_of(k).contains(c));
                let p = choose|p: int| 0 <= p < coords(k).len() && coords(k)[p] == c;
                assert(cn[p] == c);
            } else {
                assert(m.contains(c));
                let q = choose|q: int| 0 <= q < m.len() && m[q] == c;
                assert(cn[k.len() + q] == c);
            }
        }
    }
    assert(cn.to_set() =~= target_set(center, r));
    cn.unique_seq_to_set();
}

/// Once the loaded coordinates are the target, a further pass finds nothing
/// to load and nothing to unload, and every chunk stays.
pub proof fn settled_table_stays(table: Seq<Chunk>, center: (int, int), r: int)
    requires
        square_fits(center, r),
        loaded_of(table) == target_set(center, r),
    ensures
        missing(loaded_of(table), center, r).len() == 0,
        stale(table, center, r).len() == 0,
        kept(table, center, r) == table,
{
    let m = missing(loaded_of(table), center, r);
    let s = stale(table, center, r);
    lemma_missing(loaded_of(table), center, r);
    if m.len() > 0 {
        assert(m.contains(m[0]));
    }
    assert forall|i: int| 0 <= i < table.len() implies within(center, r)(#[trigger] table[i]) by {
        assert(coords(table)[i] == (table[i].chunk_x, table[i].chunk_z));
        assert(loaded_of(table).contains(coords(table)[i]));
    }
    lemma_filter_all(table, within(center, r));
    if s.len() > 0 {
        table.lemma_filter_pred(beyond(center, r), 0);
        assert(s.contains(s[0]));
        table.lemma_filter_contains_rev(beyond(center, r), s[0]);
        let q = choose|q: int| 0 <= q < table.len() && table[q] == s[0];
        assert(within(center, r)(table[q]));
    }
}

/// A second pass for a viewer in the same chunk changes nothing: whatever the
/// table was before the first pass, the second finds nothing to load and
/// nothing to unload and leaves the table as the first made it.
pub proof fn second_pass_changes_nothing(
    before: Seq<Chunk>,
    first: Seq<Chunk>,
    second: Seq<Chunk>,
    center: (int, int),
    r: int,
    first_samples: Seq<Vec<i32>>,
    second_samples: Seq<Vec<i32>>,
)
    requires
        square_fits(center, r),
        coords(before).no_duplicates(),
        all_chunks_wf(before),
        first_samples.len() == missing(loaded_of(before), center, r).len(),
        forall|j: int|
            0 <= j < first_samples.len() ==> (#[trigger] first_samples[j])@.len() == 256,
        reconciled(before, first, center, r, first_samples),
        reconciled(first, second, center, r, second_samples),
    ensures
        missing(loaded_of(first), center, r).len() == 0,
        stale(first, center, r).len() == 0,
        second == first,
{
    pass_reaches_target(before, first, center, r, first_samples);
    settled_table_stays(first, center, r);
    assert(second =~= first);
}

/// In one pass no coordinate is both loaded and unloaded: a coordinate to
/// load is never that of a chunk to unload.
pub proof fn load_and_unload_disjoint(table: Seq<Chunk>, center: (int, int), r: int, i: int, j: int)
    requires
        0 <= i < missing(loaded_of(table), center, r).len(),
        0 <= j < stale(table, center, r).len(),
    ensures
        missing(loaded_of(table), center, r)[i] != coords(stale(table, center, r))[j],
{
    let s = stale(table, center, r);
    target_seq(center, r).lemma_filter_pred(not_in(loaded_of(table)), i);
    assert(s.contains(s[j]));
    table.lemma_filter_contains_rev(beyond(center, r), s[j]);
    let q = choose|q: int| 0 <= q < table.len() && table[q] == s[j];
    assert(coords(table)[q] == coords(s)[j]);
    assert(loaded_of(table).contains(coords(table)[q]));
}

/// Place `a * (2r + 1) + b` of the target holds the coordinate `a` steps
/// along `x` and `b` steps along `z` from the corner of the square.
pub proof fn lemma_target_seq_index(center: (int, int), r: int, a: int, b: int)
    requires
        0 <= r,
        0 <= a < 2 * r + 1,
        0 <= b < 2 * r + 1,
    ensures
        0 <= a * (2 * r + 1) + b < target_seq(center, r).len(),
        target_seq(center, r)[a * (2 * r + 1) + b] == (
            (center.0 - r + a) as i32,
            (center.1 - r + b) as i32,
        ),
{
    let n = 2 * r + 1;
    let k = a * n + b;
    assert(0 <= a * n && a * n + n <= n * n) by (nonlinear_arith)
        requires
            0 <= a < n,
    ;
    lemma_fundamental_div_mod_converse(k, n, a, b);
}

/// The coordinates to load are exactly those of the target that are not
/// loaded, each of them once.
pub proof fn lemma_missing(loaded: Set<(i32, i32)>, center: (int, int), r: int)
    requires
        square_fits(center, r),
    ensures
        missing(loaded, center, r).no_duplicates(),
        forall|c: (i32, i32)| #[trigger]
            missing(loaded, center, r).contains(c) <==> in_range(c, center, r)
                && !loaded.contains(c),
{
    let t = target_seq(center, r);
    let m = missing(loaded, center, r);
    target_has_square_size(center, r);
    lemma_filter_no_duplicates(t, not_in(loaded));
    assert forall|c: (i32, i32)| #[trigger] m.contains(c) <==> in_range(c, center, r)
        && !loaded.contains(c) by {
        if m.contains(c) {
            t.lemma_filter_contains_rev(not_in(loaded), c);
            assert(t.to_set().contains(c));
            let i = choose|i: int| 0 <= i < m.len() && m[i] == c;
            t.lemma_filter_pred(not_in(loaded), i);
        }
        if in_range(c, center, r) && !loaded.contains(c) {
            assert(t.to_set().contains(c));
            let i = choose|i: int| 0 <= i < t.len() && t[i] == c;
            t.lemma_filter_contains(not_in(loaded), i);
        }
    }
}

/// The chunks that stay are chunks of the table, hold exactly the loaded
/// coordinates that lie in the target, and none of these twice.
pub proof fn lemma_kept(table: Seq<Chunk>, center: (int, int), r: int)
    requires
        coords(table).no_duplicates(),
    ensures
        coords(kept(table, center, r)).no_duplicates(),
        forall|p: int|
            0 <= p < kept(table, center, r).len() ==> table.contains(
                #[trigger] kept(table, center, r)[p],
            ),
        forall|c: (i32, i32)| #[trigger]
            loaded_of(kept(table, center, r)).contains(c) <==> loaded_of(table).contains(c)
                && in_range(c, center, r),
    decreases table.len(),
{
    let k = kept(table, center, r);
    let pred = within(center, r);
    assert forall|p: int| 0 <= p < k.len() implies table.contains(#[trigger] k[p]) by {
        assert(k.contains(k[p]));
        table.lemma_filter_contains_rev(pred, k[p]);
    }
    assert forall|c: (i32, i32)| #[trigger] loaded_of(k).contains(c) <==> loaded_of(
        table,
    ).contains(c) && in_range(c, center, r) by {
        if loaded_of(k).contains(c) {
            let p = choose|p: int| 0 <= p < coords(k).len() && coords(k)[p] == c;
            table.lemma_filter_pred(pred, p);
            assert(table.contains(k[p]));
            let q = choose|q: int| 0 <= q < table.len() && table[q] == k[p];
            assert(coords(table)[q] == c);
        }
        if loaded_of(table).contains(c) && in_range(c, center, r) {
            let q = choose|q: int| 0 <= q < coords(table).len() && coords(table)[q] == c;
            table.lemma_filter_contains(pred, q);
            let p = choose|p: int| 0 <= p < k.len() && k[p] == table[q];
            assert(coords(k)[p] == c);
        }
    }
    if table.len() == 0 {
        table.lemma_filter_len(pred);
    } else {
        let rest = table.drop_last();
        let last = table.last();
        assert(table =~= rest.push(last));
        Seq::lemma_filter_push(rest, last, pred);
        assert forall|i: int, j: int|
            0 <= i < coords(rest).len() && 0 <= j < coords(rest).len() && i != j implies coords(
            rest,
        )[i] != coords(rest)[j] by {
            assert(coords(rest)[i] == coords(table)[i] && coords(rest)[j] == coords(table)[j]);
        }
        lemma_kept(rest, center, r);
        let kr = kept(rest, center, r);
        if pred(last) {
            assert forall|i: int, j: int|
                0 <= i < coords(k).len() && 0 <= j < coords(k).len() && i != j implies coords(
                k,
            )[i] != coords(k)[j] by {
                if i < kr.len() && j < kr.len() {
                    assert(coords(kr)[i] == coords(k)[i] && coords(kr)[j] == coords(k)[j]);
                } else {
                    let o = if i < kr.len() {
                        i
                    } else {
                        j
                    };
                    assert(rest.contains(kr[o]));
                    let q = choose|q: int| 0 <= q < rest.len() && rest[q] == kr[o];
                    assert(coords(table)[q] == coords(k)[o]);
                    assert(coords(table)[table.len() - 1] == coords(k)[k.len() - 1]);
                }
            }
        }
    }
}

} // verus!
