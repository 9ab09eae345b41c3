use vox3d::terrain::chunk::{get_voxel, Chunk, CHUNK_SIZE, CHUNK_VOLUME, MAX_HEIGHT};
use vox3d::terrain::generator::{TerrainGenerator, MAX_TERRAIN_HEIGHT, MIN_TERRAIN_HEIGHT};

fn index(x: usize, y: usize, z: usize) -> usize {
    x + z * 16 + y * 256
}

#[test]
fn constants_describe_the_grid() {
    assert_eq!(CHUNK_SIZE, 16);
    assert_eq!(MAX_HEIGHT, 256);
    assert_eq!(CHUNK_VOLUME, 16 * 16 * 256);
    assert_eq!(MIN_TERRAIN_HEIGHT, 1);
    assert_eq!(MAX_TERRAIN_HEIGHT, MAX_HEIGHT - 2);
}

#[test]
fn chunk_new_keeps_its_parts() {
    let mut voxels = vec![false; CHUNK_VOLUME];
    voxels[index(3, 4, 5)] = true;
    let chunk = Chunk::new(voxels.clone(), -7, 12);
    assert_eq!(chunk.voxels, voxels);
    assert_eq!(chunk.chunk_x, -7);
    assert_eq!(chunk.chunk_z, 12);
}

#[test]
fn get_voxel_reads_the_flat_index() {
    let mut voxels = vec![false; CHUNK_VOLUME];
    voxels[3 + 5 * 16 + 4 * 256] = true;
    assert!(get_voxel(&voxels, 3, 4, 5));
    assert!(!get_voxel(&voxels, 5, 4, 3));
    assert!(!get_voxel(&voxels, 4, 3, 5));
    assert!(!get_voxel(&voxels, 3, 5, 4));
}

#[test]
fn get_voxel_is_open_air_outside_the_grid() {
    let voxels = vec![true; CHUNK_VOLUME];
    assert!(get_voxel(&voxels, 0, 0, 0));
    assert!(get_voxel(&voxels, 15, 255, 15));
    assert!(!get_voxel(&voxels, -1, 0, 0));
    assert!(!get_voxel(&voxels, 16, 0, 0));
    assert!(!get_voxel(&voxels, 0, -1, 0));
    assert!(!get_voxel(&voxels, 0, 256, 0));
    assert!(!get_voxel(&voxels, 0, 0, -1));
    assert!(!get_voxel(&voxels, 0, 0, 16));
    assert!(!get_voxel(&voxels, i32::MAX, i32::MAX, i32::MAX));
    assert!(!get_voxel(&voxels, i32::MIN, i32::MIN, i32::MIN));
}

#[test]
fn generator_keeps_its_seed() {
    assert_eq!(TerrainGenerator::new(42).seed(), 42);
    assert_eq!(TerrainGenerator::new(0).seed(), 0);
    assert_eq!(TerrainGenerator::new(u32::MAX).seed(), u32::MAX);
}

#[test]
fn height_is_the_level_within_bounds() {
    let generator = TerrainGenerator::new(42);
    assert_eq!(generator.get_height(1), 1);
    assert_eq!(generator.get_height(2), 2);
    assert_eq!(generator.get_height(16), 16);
    assert_eq!(generator.get_height(32), 32);
    assert_eq!(generator.get_height(253), 253);
    assert_eq!(generator.get_height(254), 254);
}

#[test]
fn height_has_a_floor_of_one() {
    let generator = TerrainGenerator::new(42);
    assert_eq!(generator.get_height(0), 1);
    assert_eq!(generator.get_height(-1), 1);
    assert_eq!(generator.get_height(i32::MIN), 1);
}

#[test]
fn height_leaves_the_top_free() {
    let generator = TerrainGenerator::new(42);
    assert_eq!(generator.get_height(255), 254);
    assert_eq!(generator.get_height(256), 254);
    assert_eq!(generator.get_height(i32::MAX), 254);
}

#[test]
fn height_is_always_between_one_and_top() {
    let generator = TerrainGenerator::new(7);
    for level in -600..600 {
        let height = generator.get_height(level);
        assert!(1 <= height && height <= MAX_HEIGHT - 2);
    }
}

#[test]
fn height_is_the_same_each_time() {
    let generator = TerrainGenerator::new(7);
    for level in [-3, 0, 1, 9, 254, 255, 4000] {
        assert_eq!(generator.get_height(level), generator.get_height(level));
    }
}

#[test]
fn columns_are_the_world_columns_of_the_chunk() {
    let generator = TerrainGenerator::new(1);
    let columns = generator.columns(2, -1);
    assert_eq!(columns.len(), 256);
    assert_eq!(columns[0], (32, -16));
    assert_eq!(columns[1], (33, -16));
    assert_eq!(columns[16], (32, -15));
    assert_eq!(columns[255], (47, -1));
    for z in 0..16usize {
        for x in 0..16usize {
            assert_eq!(columns[x + z * 16], (32 + x as i64, -16 + z as i64));
        }
    }
}

#[test]
fn columns_of_the_farthest_chunks_do_not_overflow() {
    let generator = TerrainGenerator::new(1);
    let columns = generator.columns(i32::MAX, i32::MIN);
    assert_eq!(columns[0], (i32::MAX as i64 * 16, i32::MIN as i64 * 16));
    assert_eq!(columns[255], (i32::MAX as i64 * 16 + 15, i32::MIN as i64 * 16 + 15));
}

#[test]
fn generate_fills_each_column_up_to_its_height() {
    let generator = TerrainGenerator::new(42);
    let mut levels = vec![0i32; 256];
    for z in 0..16usize {
        for x in 0..16usize {
            levels[x + z * 16] = (x as i32) * 20 - (z as i32) * 3;
        }
    }
    let voxels = generator.generate_chunk(&levels);
    assert_eq!(voxels.len(), CHUNK_VOLUME);
    for z in 0..16usize {
        for x in 0..16usize {
            let height = generator.get_height(levels[x + z * 16]) as usize;
            for y in 0..256usize {
                assert_eq!(voxels[index(x, y, z)], y <= height);
            }
        }
    }
}

#[test]
fn generate_on_flat_levels() {
    let generator = TerrainGenerator::new(42);
    let voxels = generator.generate_chunk(&vec![3; 256]);
    let occupied = voxels.iter().filter(|v| **v).count();
    assert_eq!(occupied, 256 * 4);
    assert!(voxels[index(0, 0, 0)]);
    assert!(voxels[index(15, 3, 15)]);
    assert!(!voxels[index(15, 4, 15)]);
    assert!(!voxels[index(0, 255, 0)]);
}

#[test]
fn generate_keeps_ground_and_a_free_top() {
    let generator = TerrainGenerator::new(42);
    let low = generator.generate_chunk(&vec![-50; 256]);
    assert!(low[index(7, 0, 7)]);
    assert!(low[index(7, 1, 7)]);
    assert!(!low[index(7, 2, 7)]);
    let high = generator.generate_chunk(&vec![9000; 256]);
    assert!(high[index(7, 254, 7)]);
    assert!(!high[index(7, 255, 7)]);
}

#[test]
fn generate_twice_gives_the_same_grid() {
    let generator = TerrainGenerator::new(42);
    let mut levels = vec![0i32; 256];
    for (i, level) in levels.iter_mut().enumerate() {
        *level = ((i * 37) % 61) as i32 - 4;
    }
    let first = generator.generate_chunk(&levels);
    let second = generator.generate_chunk(&levels);
    assert_eq!(first, second);
    let other = TerrainGenerator::new(42).generate_chunk(&levels);
    assert_eq!(first, other);
}
