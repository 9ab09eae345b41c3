//! Extraction of the visible surface of a chunk as a list of triangles.
use vstd::prelude::*;
use crate::renderer::surface::{
    all_faces,
    chunk_mesh,
    face_slots,
    lemma_scan_skip,
    lemma_scan_step,
    lemma_slot_face,
    lemma_vertices_push,
    quad_vertices,
    slot_of,
    vertices_of,
    visible_faces_before,
    Face,
};
use crate::renderer::vertex::{Direction, HeightBand, Vertex};
use crate::terrain::chunk::{get_voxel, in_grid, occupied};

verus! {

/// Turns the voxels of a chunk into triangles.
pub struct MeshGenerator;

impl MeshGenerator {
    /// The two triangles of the face looking in direction `normal` of the
    /// voxel centred at `pos` (in half-voxel units).
    fn create_face(pos: (i64, i64, i64), normal: Direction, color: (u8, u8, u8)) -> (face: Vec<
        Vertex,
    >)
        requires
            -0x1_0000_0000_0000 < pos.0 < 0x1_0000_0000_0000,
            -0x1_0000_0000_0000 < pos.1 < 0x1_0000_0000_0000,
            -0x1_0000_0000_0000 < pos.2 < 0x1_0000_0000_0000,
        ensures
            face@ == quad_vertices((pos.0 as int, pos.1 as int, pos.2 as int), normal, color),
    {
        let (x, y, z) = pos;
        let n = normal.normal();
        let (a, b, c, d) = match normal {
            Direction::PosZ => (
                (x - 1, y - 1, z + 1),
                (x + 1, y - 1, z + 1),
                (x + 1, y + 1, z + 1),
                (x - 1, y + 1, z + 1),
            ),
            Direction::NegZ => (
                (x - 1, y - 1, z - 1),
                (x - 1, y + 1, z - 1),
                (x + 1, y + 1, z - 1),
                (x + 1, y - 1, z - 1),
            ),
            Direction::PosY => (
                (x - 1, y + 1, z - 1),
                (x - 1, y + 1, z + 1),
                (x + 1, y + 1, z + 1),
                (x + 1, y + 1, z - 1),
            ),
            Direction::NegY => (
                (x - 1, y - 1, z - 1),
                (x + 1, y - 1, z - 1),
                (x + 1, y - 1, z + 1),
                (x - 1, y - 1, z + 1),
            ),
            Direction::PosX => (
                (x + 1, y - 1, z - 1),
                (x + 1, y + 1, z - 1),
                (x + 1, y + 1, z + 1),
                (x + 1, y - 1, z + 1),
            ),
            Direction::NegX => (
                (x - 1, y - 1, z - 1),
                (x - 1, y - 1, z + 1),
                (x - 1, y + 1, z + 1),
                (x - 1, y + 1, z - 1),
            ),
        };
        let mut face: Vec<Vertex> = Vec::new();
        face.push(Vertex { position: a, color, normal: n });
        face.push(Vertex { position: b, color, normal: n });
        face.push(Vertex { position: c, color, normal: n });
        face.push(Vertex { position: c, color, normal: n });
        face.push(Vertex { position: d, color, normal: n });
        face.push(Vertex { position: a, color, normal: n });
        assert(face@ =~= quad_vertices(
            (pos.0 as int, pos.1 as int, pos.2 as int),
            normal,
            color,
        ));
        face
    }

    /// Appends the face of voxel `(x, y, z)` in the direction at place `d` to
    /// `vertices` if the voxel it looks at is open air.
    fn emit_face(
        vertices: &mut Vec<Vertex>,
        voxels: &[bool],
        chunk_x: i32,
        chunk_z: i32,
        x: i32,
        y: i32,
        z: i32,
        normal: Direction,
        Ghost(d): Ghost<int>,
    )
        requires
            voxels@.len() == 65536,
            in_grid(x as int, y as int, z as int),
            occupied(voxels@, x as int, y as int, z as int),
            0 <= d < 6,
            normal == Direction::at(d),
            old(vertices)@ == vertices_of(
                visible_faces_before(voxels@, slot_of(x as int, y as int, z as int, d)),
                chunk_x as int,
                chunk_z as int,
            ),
        ensures
            final(vertices)@ == vertices_of(
                visible_faces_before(voxels@, slot_of(x as int, y as int, z as int, d) + 1),
                chunk_x as int,
                chunk_z as int,
            ),
    {
        let (nx, ny, nz): (i32, i32, i32) = match normal {
            Direction::PosZ => (x, y, z + 1),
            Direction::NegZ => (x, y, z - 1),
            Direction::PosY => (x, y + 1, z),
            Direction::NegY => (x, y - 1, z),
            Direction::PosX => (x + 1, y, z),
            Direction::NegX => (x - 1, y, z),
        };
        let ghost k = slot_of(x as int, y as int, z as int, d);
        let ghost f = Face { x: x as int, y: y as int, z: z as int, dir: normal };
        proof {
            lemma_slot_face(x as int, y as int, z as int, d);
            lemma_scan_step(voxels@, k);
        }
        if !get_voxel(voxels, nx, ny, nz) {
            let pos: (i64, i64, i64) = (
                2 * ((chunk_x as i64) * 16 + (x as i64)),
                2 * (y as i64),
                2 * ((chunk_z as i64) * 16 + (z as i64)),
            );
            let mut face = Self::create_face(pos, normal, HeightBand::classify(y).color());
            vertices.append(&mut face);
            proof {
                lemma_vertices_push(
                    visible_faces_before(voxels@, k),
                    f,
                    chunk_x as int,
                    chunk_z as int,
                );
            }
        }
    }

    /// The mesh of the chunk at `(chunk_x, chunk_z)` whose voxels are
    /// `voxels`: for every occupied voxel, and every direction in which the
    /// next voxel is open air, the two triangles of that face. Voxels outside
    /// the chunk count as open air.
    pub fn generate_chunk_mesh(voxels: &[bool], chunk_x: i32, chunk_z: i32) -> (vertices: Vec<
        Vertex,
    >)
        requires
            voxels@.len() == 65536,
        ensures
            vertices@ == chunk_mesh(voxels@, chunk_x as int, chunk_z as int),
    {
        let mut vertices: Vec<Vertex> = Vec::new();
        proof {
            assert(visible_faces_before(voxels@, 0) =~= Seq::<Face>::empty()) by {
                assert(all_faces().take(0) =~= Seq::<Face>::empty());
            }
            assert(vertices@ =~= vertices_of(
                visible_faces_before(voxels@, 0),
                chunk_x as int,
                chunk_z as int,
            ));
        }
        let mut x: i32 = 0;
        while x < 16
            invariant
                0 <= x <= 16,
                voxels@.len() == 65536,
                vertices@ == vertices_of(
                    visible_faces_before(voxels@, slot_of(x as int, 0, 0, 0)),
                    chunk_x as int,
                    chunk_z as int,
                ),
            decreases 16 - x,
        {
            let mut y: i32 = 0;
            while y < 256
                invariant
                    0 <= x < 16,
                    0 <= y <= 256,
                    voxels@.len() == 65536,
                    vertices@ == vertices_of(
                        visible_faces_before(voxels@, slot_of(x as int, y as int, 0, 0)),
                        chunk_x as int,
                        chunk_z as int,
                    ),
                decreases 256 - y,
            {
                let mut z: i32 = 0;
                while z < 16
                    invariant
                        0 <= x < 16,
                        0 <= y < 256,
                        0 <= z <= 16,
                        voxels@.len() == 65536,
                        vertices@ == vertices_of(
                            visible_faces_before(
                                voxels@,
                                slot_of(x as int, y as int, z as int, 0),
                            ),
                            chunk_x as int,
                            chunk_z as int,
                        ),
                    decreases 16 - z,
                {
                    if get_voxel(voxels, x, y, z) {
                        Self::emit_face(
                            &mut vertices,
                            voxels,
                            chunk_x,
                            chunk_z,
                            x,
                            y,
                            z,
                            Direction::PosZ,
                            Ghost(0),
                        );
                        Self::emit_face(
                            &mut vertices,
                            voxels,
                            chunk_x,
                            chunk_z,
                            x,
                            y,
                            z,
                            Direction::NegZ,
                            Ghost(1),
                        );
                        Self::emit_face(
                            &mut vertices,
                            voxels,
                            chunk_x,
                            chunk_z,
                            x,
                            y,
                            z,
                            Direction::PosY,
                            Ghost(2),
                        );
                        Self::emit_face(
                            &mut vertices,
                            voxels,
                            chunk_x,
                            chunk_z,
                            x,
                            y,
                            z,
                            Direction::NegY,
                            Ghost(3),
                        );
                        Self::emit_face(
                            &mut vertices,
                            voxels,
                            chunk_x,
                            chunk_z,
                            x,
                            y,
                            z,
                            Direction::PosX,
                            Ghost(4),
                        );
                        Self::emit_face(
                            &mut vertices,
                            voxels,
                            chunk_x,
                            chunk_z,
                            x,
                            y,
                            z,
                            Direction::NegX,
                            Ghost(5),
                        );
                    } else {
                        proof {
                            lemma_scan_skip(voxels@, x as int, y as int, z as int);
                        }
                    }
                    z = z + 1;
                }
                y = y + 1;
            }
            x = x + 1;
        }
        proof {
            assert(all_faces().take(face_slots()) =~= all_faces());
        }
        vertices
    }
}

} // verus!
