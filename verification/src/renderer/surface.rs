//! The visible surface of a chunk, as mathematics.
//!
//! The surface is a sequence of faces: every place where an occupied voxel
//! touches open air, taken in a fixed scan order. The mesh is that sequence
//! with each face written out as two triangles.
use vstd::prelude::*;
use crate::renderer::vertex::{Direction, HeightBand, Vertex};
use crate::sequences::lemma_filter_no_duplicates;
use crate::terrain::chunk::{in_grid, occupied};

verus! {

/// One face of one voxel: the voxel's place in the chunk and the direction the
/// face looks in.
pub struct Face {
    pub x: int,
    pub y: int,
    pub z: int,
    pub dir: Direction,
}

/// Number of voxel faces in a chunk, visible or not.
pub open spec fn face_slots() -> int {
    393216
}

/// The voxel next to the face `f`, on the side the face looks at.
pub open spec fn neighbor(f: Face) -> (int, int, int) {
    (f.x + f.dir.unit().0, f.y + f.dir.unit().1, f.z + f.dir.unit().2)
}

/// A face is visible when its voxel is occupied and the voxel it looks at is
/// not; everything outside the chunk counts as open air.
pub open spec fn face_visible(voxels: Seq<bool>, f: Face) -> bool {
    occupied(voxels, f.x, f.y, f.z) && !occupied(
        voxels,
        neighbor(f).0,
        neighbor(f).1,
        neighbor(f).2,
    )
}

/// The face at place `k` of the scan: voxels are visited with `x` outermost,
/// then `y`, then `z`, and the six faces of a voxel in the order of
/// `Direction::at`.
pub open spec fn slot_face(k: int) -> Face {
    Face { x: k / 24576, y: (k / 96) % 256, z: (k / 6) % 16, dir: Direction::at(k % 6) }
}

/// Place in the scan of the face of voxel `(x, y, z)` in the direction at `d`.
pub open spec fn slot_of(x: int, y: int, z: int, d: int) -> int {
    ((x * 256 + y) * 16 + z) * 6 + d
}

/// All faces of a chunk in scan order.
pub open spec fn all_faces() -> Seq<Face> {
    Seq::new(face_slots() as nat, |k: int| slot_face(k))
}

/// The visible faces among the first `k` of the scan.
pub open spec fn visible_faces_before(voxels: Seq<bool>, k: int) -> Seq<Face> {
    all_faces().take(k).filter(|f: Face| face_visible(voxels, f))
}

/// The visible faces of a chunk, in scan order.
pub open spec fn visible_faces(voxels: Seq<bool>) -> Seq<Face> {
    all_faces().filter(|f: Face| face_visible(voxels, f))
}

/// The four corners of the face looking in direction `d`, as offsets from the
/// voxel's centre in half-voxel units, going round the face counter-clockwise
/// when seen from outside.
pub open spec fn quad_corner(d: Direction, c: int) -> (int, int, int) {
    match d {
        Direction::PosZ => if c == 0 {
            (-1, -1, 1)
        } else if c == 1 {
            (1, -1, 1)
        } else if c == 2 {
            (1, 1, 1)
        } else {
            (-1, 1, 1)
        },
        Direction::NegZ => if c == 0 {
            (-1, -1, -1)
        } else if c == 1 {
            (-1, 1, -1)
        } else if c == 2 {
            (1, 1, -1)
        } else {
            (1, -1, -1)
        },
        Direction::PosY => if c == 0 {
            (-1, 1, -1)
        } else if c == 1 {
            (-1, 1, 1)
        } else if c == 2 {
            (1, 1, 1)
        } else {
            (1, 1, -1)
        },
        Direction::NegY => if c == 0 {
            (-1, -1, -1)
        } else if c == 1 {
            (1, -1, -1)
        } else if c == 2 {
            (1, -1, 1)
        } else {
            (-1, -1, 1)
        },
        Direction::PosX => if c == 0 {
            (1, -1, -1)
        } else if c == 1 {
            (1, 1, -1)
        } else if c == 2 {
            (1, 1, 1)
        } else {
            (1, -1, 1)
        },
        Direction::NegX => if c == 0 {
            (-1, -1, -1)
        } else if c == 1 {
            (-1, -1, 1)
        } else if c == 2 {
            (-1, 1, 1)
        } else {
            (-1, 1, -1)
        },
    }
}

/// The corner used by vertex `k` of a face: the two triangles of a quad are
/// corners 0, 1, 2 and corners 2, 3, 0.
pub open spec fn triangle_corner(k: int) -> int {
    if k == 0 || k == 5 {
        0
    } else if k == 1 {
        1
    } else if k == 2 || k == 3 {
        2
    } else {
        3
    }
}

/// Vertex `k` of the face looking in direction `d` of the voxel whose centre,
/// in half-voxel units, is `centre`.
pub open spec fn quad_vertex(
    centre: (int, int, int),
    d: Direction,
    color: (u8, u8, u8),
    k: int,
) -> Vertex {
    let off = quad_corner(d, triangle_corner(k));
    Vertex {
        position: (
            (centre.0 + off.0) as i64,
            (centre.1 + off.1) as i64,
            (centre.2 + off.2) as i64,
        ),
        color,
        normal: (d.unit().0 as i8, d.unit().1 as i8, d.unit().2 as i8),
    }
}

/// The six vertices of a face.
pub open spec fn quad_vertices(centre: (int, int, int), d: Direction, color: (u8, u8, u8)) -> Seq<
    Vertex,
> {
    Seq::new(6, |k: int| quad_vertex(centre, d, color, k))
}

/// Centre of the voxel of `f` in the world, in half-voxel units, for a chunk
/// at `(chunk_x, chunk_z)`.
pub open spec fn face_centre(chunk_x: int, chunk_z: int, f: Face) -> (int, int, int) {
    (2 * (chunk_x * 16 + f.x), 2 * f.y, 2 * (chunk_z * 16 + f.z))
}

/// Vertex `k` of the face `f` of the chunk at `(chunk_x, chunk_z)`.
pub open spec fn face_vertex(chunk_x: int, chunk_z: int, f: Face, k: int) -> Vertex {
    quad_vertex(face_centre(chunk_x, chunk_z, f), f.dir, HeightBand::of(f.y).tenths(), k)
}

/// The triangle list of a sequence of faces: six vertices for each face, in
/// the order of the faces.
pub open spec fn vertices_of(faces: Seq<Face>, chunk_x: int, chunk_z: int) -> Seq<Vertex> {
    Seq::new(6 * faces.len(), |i: int| face_vertex(chunk_x, chunk_z, faces[i / 6], i % 6))
}

/// The mesh of a chunk: the triangle list of its visible faces.
pub open spec fn chunk_mesh(voxels: Seq<bool>, chunk_x: int, chunk_z: int) -> Seq<Vertex> {
    vertices_of(visible_faces(voxels), chunk_x, chunk_z)
}

/// The vector from `a` to `b`.
pub open spec fn edge(a: (int, int, int), b: (int, int, int)) -> (int, int, int) {
    (b.0 - a.0, b.1 - a.1, b.2 - a.2)
}

/// The cross product of `u` and `v`.
pub open spec fn cross(u: (int, int, int), v: (int, int, int)) -> (int, int, int) {
    (u.1 * v.2 - u.2 * v.1, u.2 * v.0 - u.0 * v.2, u.0 * v.1 - u.1 * v.0)
}

/// The inner product of `u` and `v`.
pub open spec fn dot(u: (int, int, int), v: (int, int, int)) -> int {
    u.0 * v.0 + u.1 * v.1 + u.2 * v.2
}

/// The vector `v` stretched by the factor `k`.
pub open spec fn scaled(k: int, v: (int, int, int)) -> (int, int, int) {
    (k * v.0, k * v.1, k * v.2)
}

/// Every face of the mesh is a face of an occupied voxel of the chunk that
/// looks at open air: no face hidden between two occupied voxels is ever
/// emitted. Vertex `i` of the mesh belongs to face `i / 6`.
pub proof fn no_hidden_faces(voxels: Seq<bool>, chunk_x: int, chunk_z: int, i: int)
    requires
        0 <= i < chunk_mesh(voxels, chunk_x, chunk_z).len(),
    ensures
        0 <= i / 6 < visible_faces(voxels).len(),
        chunk_mesh(voxels, chunk_x, chunk_z)[i] == face_vertex(
            chunk_x,
            chunk_z,
            visible_faces(voxels)[i / 6],
            i % 6,
        ),
        occupied(
            voxels,
            visible_faces(voxels)[i / 6].x,
            visible_faces(voxels)[i / 6].y,
            visible_faces(voxels)[i / 6].z,
        ),
        !occupied(
            voxels,
            neighbor(visible_faces(voxels)[i / 6]).0,
            neighbor(visible_faces(voxels)[i / 6]).1,
            neighbor(visible_faces(voxels)[i / 6]).2,
        ),
{
    let pred = |f: Face| face_visible(voxels, f);
    all_faces().lemma_filter_pred(pred, i / 6);
}

/// Every place where an occupied voxel of the chunk touches open air is a
/// face of the mesh.
pub proof fn every_open_face_emitted(voxels: Seq<bool>, x: int, y: int, z: int, d: int)
    requires
        in_grid(x, y, z),
        0 <= d < 6,
        face_visible(voxels, Face { x, y, z, dir: Direction::at(d) }),
    ensures
        visible_faces(voxels).contains(Face { x, y, z, dir: Direction::at(d) }),
{
    let pred = |f: Face| face_visible(voxels, f);
    lemma_slot_face(x, y, z, d);
    all_faces().lemma_filter_contains(pred, slot_of(x, y, z, d));
}

/// No face is emitted twice.
pub proof fn no_face_emitted_twice(voxels: Seq<bool>)
    ensures
        visible_faces(voxels).no_duplicates(),
{
    assert forall|i: int, j: int|
        0 <= i < all_faces().len() && 0 <= j < all_faces().len() && i != j implies all_faces()[i]
        != all_faces()[j] by {
        let f = slot_face(i);
        let g = slot_face(j);
        if f.x == g.x && f.y == g.y && f.z == g.z {
            assert(i / 6 == j / 6);
            assert(i % 6 != j % 6);
        }
    }
    lemma_filter_no_duplicates(all_faces(), |f: Face| face_visible(voxels, f));
}

/// The mesh has six vertices for each visible face.
pub proof fn six_vertices_per_face(voxels: Seq<bool>, chunk_x: int, chunk_z: int)
    ensures
        chunk_mesh(voxels, chunk_x, chunk_z).len() == 6 * visible_faces(voxels).len(),
{
}

/// A chunk without an occupied voxel has an empty mesh.
pub proof fn empty_chunk_has_empty_mesh(voxels: Seq<bool>, chunk_x: int, chunk_z: int)
    requires
        forall|x: int, y: int, z: int| !occupied(voxels, x, y, z),
    ensures
        chunk_mesh(voxels, chunk_x, chunk_z) == Seq::<Vertex>::empty(),
{
    let pred = |f: Face| face_visible(voxels, f);
    if visible_faces(voxels).len() > 0 {
        all_faces().lemma_filter_pred(pred, 0);
        let f = visible_faces(voxels)[0];
        assert(occupied(voxels, f.x, f.y, f.z));
    }
    assert(chunk_mesh(voxels, chunk_x, chunk_z) =~= Seq::<Vertex>::empty());
}

/// A voxel that is the only occupied one of its chunk shows all six faces,
/// wherever in the chunk it lies, so that its mesh has 36 vertices.
pub proof fn lone_voxel_has_six_faces(
    voxels: Seq<bool>,
    chunk_x: int,
    chunk_z: int,
    x: int,
    y: int,
    z: int,
)
    requires
        in_grid(x, y, z),
        forall|a: int, b: int, c: int|
            occupied(voxels, a, b, c) <==> a == x && b == y && c == z,
    ensures
        visible_faces(voxels) == Seq::new(6, |d: int| Face { x, y, z, dir: Direction::at(d) }),
        chunk_mesh(voxels, chunk_x, chunk_z).len() == 36,
{
    let k = slot_of(x, y, z, 0);
    lemma_slot_face(x, y, z, 0);
    lemma_slot_face(x, y, z, 1);
    lemma_slot_face(x, y, z, 2);
    lemma_slot_face(x, y, z, 3);
    lemma_slot_face(x, y, z, 4);
    lemma_slot_face(x, y, z, 5);
    assert forall|i: int| 0 <= i < k || k + 6 <= i < face_slots() implies !face_visible(
        voxels,
        slot_face(i),
    ) by {
        let f = slot_face(i);
        if f.x == x && f.y == y && f.z == z {
            assert(i / 6 == k / 6);
        }
    }
    lemma_scan_idle(voxels, 0, k);
    assert(all_faces().take(0) =~= Seq::<Face>::empty());
    all_faces().take(0).lemma_filter_len(|f: Face| face_visible(voxels, f));
    lemma_scan_step(voxels, k);
    lemma_scan_step(voxels, k + 1);
    lemma_scan_step(voxels, k + 2);
    lemma_scan_step(voxels, k + 3);
    lemma_scan_step(voxels, k + 4);
    lemma_scan_step(voxels, k + 5);
    lemma_scan_idle(voxels, k + 6, face_slots());
    assert(all_faces().take(face_slots()) =~= all_faces());
    assert(visible_faces(voxels) =~= Seq::new(
        6,
        |d: int| Face { x, y, z, dir: Direction::at(d) },
    ));
}

/// The corners of a face are corners of the voxel's cube and lie in the plane
/// one half voxel out from the centre in the face's direction.
pub proof fn face_lies_on_its_voxel(d: Direction, c: int)
    requires
        0 <= c < 4,
    ensures
        ({
            let p = quad_corner(d, c);
            &&& (p.0 == 1 || p.0 == -1) && (p.1 == 1 || p.1 == -1) && (p.2 == 1 || p.2 == -1)
            &&& dot(p, d.unit()) == 1
        }),
{
    let n = d.unit();
    let p = quad_corner(d, c);
    lemma_small_product(p.0, n.0);
    lemma_small_product(p.1, n.1);
    lemma_small_product(p.2, n.2);
}

/// Both triangles of a face wind counter-clockwise when seen from outside:
/// the cross product of two edges leaving a corner points along the outward
/// normal.
pub proof fn faces_wind_outward(d: Direction)
    ensures
        cross(
            edge(quad_corner(d, 0), quad_corner(d, 1)),
            edge(quad_corner(d, 0), quad_corner(d, 2)),
        ) == scaled(4, d.unit()),
        cross(
            edge(quad_corner(d, 2), quad_corner(d, 3)),
            edge(quad_corner(d, 2), quad_corner(d, 0)),
        ) == scaled(4, d.unit()),
{
    let a = quad_corner(d, 0);
    let b = quad_corner(d, 1);
    let c = quad_corner(d, 2);
    let e = quad_corner(d, 3);
    lemma_cross_of_edges(edge(a, b), edge(a, c));
    lemma_cross_of_edges(edge(c, e), edge(c, a));
}

/// The scan visits the faces of voxel `(x, y, z)` at the places
/// `slot_of(x, y, z, 0)` to `slot_of(x, y, z, 5)`.
pub proof fn lemma_slot_face(x: int, y: int, z: int, d: int)
    requires
        in_grid(x, y, z),
        0 <= d < 6,
    ensures
        0 <= slot_of(x, y, z, d) < face_slots(),
        slot_face(slot_of(x, y, z, d)) == (Face { x, y, z, dir: Direction::at(d) }),
{
}

/// Scanning one face further adds that face if it is visible and nothing
/// otherwise.
pub proof fn lemma_scan_step(voxels: Seq<bool>, k: int)
    requires
        0 <= k < face_slots(),
    ensures
        visible_faces_before(voxels, k + 1) == if face_visible(voxels, slot_face(k)) {
            visible_faces_before(voxels, k).push(slot_face(k))
        } else {
            visible_faces_before(voxels, k)
        },
{
    let pred = |f: Face| face_visible(voxels, f);
    let before = all_faces().take(k);
    assert(all_faces().take(k + 1) =~= before.push(slot_face(k)));
    Seq::lemma_filter_push(before, slot_face(k), pred);
}

/// Scanning over faces none of which is visible adds nothing.
pub proof fn lemma_scan_idle(voxels: Seq<bool>, from: int, to: int)
    requires
        0 <= from <= to <= face_slots(),
        forall|i: int| from <= i < to ==> !face_visible(voxels, slot_face(i)),
    ensures
        visible_faces_before(voxels, to) == visible_faces_before(voxels, from),
    decreases to - from,
{
    if from < to {
        lemma_scan_idle(voxels, from, to - 1);
        lemma_scan_step(voxels, to - 1);
    }
}

/// A voxel that is not occupied has no visible face.
pub proof fn lemma_scan_skip(voxels: Seq<bool>, x: int, y: int, z: int)
    requires
        in_grid(x, y, z),
        !occupied(voxels, x, y, z),
    ensures
        visible_faces_before(voxels, slot_of(x, y, z, 0) + 6) == visible_faces_before(
            voxels,
            slot_of(x, y, z, 0),
        ),
{
    let k = slot_of(x, y, z, 0);
    lemma_slot_face(x, y, z, 0);
    lemma_slot_face(x, y, z, 1);
    lemma_slot_face(x, y, z, 2);
    lemma_slot_face(x, y, z, 3);
    lemma_slot_face(x, y, z, 4);
    lemma_slot_face(x, y, z, 5);
    lemma_scan_step(voxels, k);
    lemma_scan_step(voxels, k + 1);
    lemma_scan_step(voxels, k + 2);
    lemma_scan_step(voxels, k + 3);
    lemma_scan_step(voxels, k + 4);
    lemma_scan_step(voxels, k + 5);
}

/// Writing out one more face appends its six vertices.
pub proof fn lemma_vertices_push(faces: Seq<Face>, f: Face, chunk_x: int, chunk_z: int)
    ensures
        vertices_of(faces.push(f), chunk_x, chunk_z) == vertices_of(faces, chunk_x, chunk_z)
            + quad_vertices(
            face_centre(chunk_x, chunk_z, f),
            f.dir,
            HeightBand::of(f.y).tenths(),
        ),
{
    let left = vertices_of(faces.push(f), chunk_x, chunk_z);
    let right = vertices_of(faces, chunk_x, chunk_z) + quad_vertices(
        face_centre(chunk_x, chunk_z, f),
        f.dir,
        HeightBand::of(f.y).tenths(),
    );
    assert(left.len() == right.len());
    assert forall|i: int| 0 <= i < left.len() implies left[i] == right[i] by {
        if i < 6 * faces.len() {
            assert(i / 6 < faces.len());
            assert(faces.push(f)[i / 6] == faces[i / 6]);
        } else {
            assert(i / 6 == faces.len());
            assert(i % 6 == i - 6 * faces.len());
            assert(faces.push(f)[i / 6] == f);
        }
    }
    assert(left =~= right);
}

/// The product of a coordinate of a corner with one of a normal.
proof fn lemma_small_product(a: int, b: int)
    requires
        a == 1 || a == -1,
    ensures
        a * b == if a == 1 { b } else { 0 - b },
{
    assert(a * b == if a == 1 { b } else { 0 - b }) by (nonlinear_arith)
        requires
            a == 1 || a == -1,
    ;
}

/// The cross product of two vectors whose coordinates are 0, 2 or -2.
proof fn lemma_cross_of_edges(u: (int, int, int), v: (int, int, int))
    requires
        u.0 == 0 || u.0 == 2 || u.0 == -2,
        u.1 == 0 || u.1 == 2 || u.1 == -2,
        u.2 == 0 || u.2 == 2 || u.2 == -2,
    ensures
        cross(u, v) == (
            half_product(u.1, v.2) - half_product(u.2, v.1),
            half_product(u.2, v.0) - half_product(u.0, v.2),
            half_product(u.0, v.1) - half_product(u.1, v.0),
        ),
{
    assert(forall|a: int, b: int| #[trigger] (a * b) == half_product(a, b) || !(a == 0 || a == 2 || a == -2))
        by (nonlinear_arith);
}

/// The product of `a` and `b` where `a` is 0, 2 or -2.
pub open spec fn half_product(a: int, b: int) -> int {
    if a == 0 {
        0
    } else if a == 2 {
        b + b
    } else {
        0 - b - b
    }
}

} // verus!
