use vox3d::game::state::{ConfigError, GameState};
use vox3d::terrain::generator::TerrainGenerator;

fn flat(count: usize, level: i32) -> Vec<Vec<i32>> {
    vec![vec![level; 256]; count]
}

fn loaded(state: &GameState) -> Vec<(i32, i32)> {
    let mut coords: Vec<(i32, i32)> =
        state.chunks().iter().map(|c| (c.chunk_x, c.chunk_z)).collect();
    coords.sort();
    coords
}

fn square(cx: i32, cz: i32, r: i32) -> Vec<(i32, i32)> {
    let mut coords = Vec::new();
    for x in cx - r..=cx + r {
        for z in cz - r..=cz + r {
            coords.push((x, z));
        }
    }
    coords
}

fn state(r: i32) -> GameState {
    match GameState::new(42, r) {
        Ok(state) => state,
        Err(_) => panic!("a positive render distance was turned down"),
    }
}

/// One pass for a viewer at `(x, z)`, every new chunk flat at `level`.
fn reconcile(state: &mut GameState, x: i32, z: i32, level: i32) -> bool {
    let count = state.chunks_to_load(x, z).len();
    state.update_chunks(x, z, &flat(count, level))
}

#[test]
fn render_distance_must_be_positive() {
    assert!(matches!(GameState::new(42, 0), Err(ConfigError::RenderDistanceNotPositive)));
    assert!(matches!(GameState::new(42, -1), Err(ConfigError::RenderDistanceNotPositive)));
    assert!(matches!(GameState::new(42, i32::MIN), Err(ConfigError::RenderDistanceNotPositive)));
    assert!(GameState::new(42, 1).is_ok());
    assert!(GameState::new(42, 6).is_ok());
}

#[test]
fn new_state_is_empty() {
    let state = state(6);
    assert!(state.chunks().is_empty());
    assert!(!state.chunks_updated());
    assert_eq!(state.render_distance(), 6);
    assert_eq!(state.terrain_generator().seed(), 42);
    assert!(!state.is_loaded(0, 0));
}

#[test]
fn viewer_chunk_is_the_position_divided_and_rounded_down() {
    assert_eq!(GameState::get_current_chunk(0, 0), (0, 0));
    assert_eq!(GameState::get_current_chunk(15, 16), (0, 1));
    assert_eq!(GameState::get_current_chunk(-1, -16), (-1, -1));
    assert_eq!(GameState::get_current_chunk(-17, 31), (-2, 1));
    assert_eq!(GameState::get_current_chunk(32, -32), (2, -2));
    assert_eq!(GameState::get_current_chunk(i32::MAX, i32::MIN), (134217727, -134217728));
}

#[test]
fn target_is_the_square_around_the_viewer() {
    let state = state(1);
    assert_eq!(state.get_chunks_in_range(0, 0), square(0, 0, 1));
    assert_eq!(state.get_chunks_in_range(-1, 40), square(-1, 2, 1));
    assert_eq!(
        state.get_chunks_in_range(5, 5),
        vec![(-1, -1), (-1, 0), (-1, 1), (0, -1), (0, 0), (0, 1), (1, -1), (1, 0), (1, 1)]
    );
}

#[test]
fn target_has_the_size_of_the_square() {
    for r in 1..=6 {
        let state = state(r);
        let target = state.get_chunks_in_range(100, -100);
        assert_eq!(target.len() as i32, (2 * r + 1) * (2 * r + 1));
        let mut unique = target.clone();
        unique.sort();
        unique.dedup();
        assert_eq!(unique.len(), target.len());
    }
}

#[test]
fn first_pass_loads_the_whole_square() {
    let mut state = state(1);
    let to_load = state.chunks_to_load(0, 0);
    assert_eq!(to_load, square(0, 0, 1));
    assert!(state.chunks_to_unload(0, 0).is_empty());
    let changed = state.update_chunks(0, 0, &flat(9, 3));
    assert!(changed);
    assert!(state.chunks_updated());
    assert_eq!(loaded(&state), square(0, 0, 1));
    for x in -1..=1 {
        for z in -1..=1 {
            assert!(state.is_loaded(x, z));
        }
    }
    assert!(!state.is_loaded(2, 0));
}

#[test]
fn moving_one_chunk_swaps_one_row() {
    let mut state = state(1);
    assert!(reconcile(&mut state, 0, 0, 3));
    let to_load = state.chunks_to_load(16, 0);
    assert_eq!(to_load, vec![(2, -1), (2, 0), (2, 1)]);
    let to_unload = state.chunks_to_unload(16, 0);
    assert_eq!(to_unload, vec![(-1, -1), (-1, 0), (-1, 1)]);
    let changed = state.update_chunks(16, 0, &flat(3, 3));
    assert!(changed);
    assert_eq!(loaded(&state), square(1, 0, 1));
    for z in -1..=1 {
        assert!(!state.is_loaded(-1, z));
        assert!(state.is_loaded(2, z));
    }
    assert_eq!(state.chunks().len(), 9);
}

#[test]
fn settled_set_has_the_size_of_the_square() {
    for r in 1..=4 {
        let mut state = state(r);
        reconcile(&mut state, 7, -200, 2);
        assert_eq!(state.chunks().len() as i32, (2 * r + 1) * (2 * r + 1));
        reconcile(&mut state, 1000, 1000, 2);
        assert_eq!(state.chunks().len() as i32, (2 * r + 1) * (2 * r + 1));
        assert_eq!(loaded(&state), square(62, 62, r));
    }
}

#[test]
fn second_pass_in_the_same_chunk_changes_nothing() {
    let mut state = state(2);
    assert!(reconcile(&mut state, 20, 20, 5));
    let before: Vec<(i32, i32, Vec<bool>)> =
        state.chunks().iter().map(|c| (c.chunk_x, c.chunk_z, c.voxels.clone())).collect();
    assert!(state.chunks_to_load(20, 20).is_empty());
    assert!(state.chunks_to_unload(20, 20).is_empty());
    let changed = state.update_chunks(20, 20, &Vec::new());
    assert!(!changed);
    assert!(!state.chunks_updated());
    // another position in the same chunk
    assert!(state.chunks_to_load(31, 16).is_empty());
    assert!(!state.update_chunks(31, 16, &Vec::new()));
    let after: Vec<(i32, i32, Vec<bool>)> =
        state.chunks().iter().map(|c| (c.chunk_x, c.chunk_z, c.voxels.clone())).collect();
    assert_eq!(before, after);
}

#[test]
fn nothing_is_both_loaded_and_unloaded() {
    let mut state = state(2);
    reconcile(&mut state, 0, 0, 5);
    for (x, z) in [(16, 0), (48, -48), (0, 0), (-200, 7), (-190, 7)] {
        let target = state.get_chunks_in_range(x, z);
        let to_load = state.chunks_to_load(x, z);
        let to_unload = state.chunks_to_unload(x, z);
        let outside: Vec<(i32, i32)> =
            loaded(&state).into_iter().filter(|c| !target.contains(c)).collect();
        let mut sorted = to_unload.clone();
        sorted.sort();
        assert_eq!(sorted, outside);
        for c in &to_load {
            assert!(!to_unload.contains(c));
            assert!(target.contains(c));
            assert!(!state.is_loaded(c.0, c.1));
        }
        let changed = state.update_chunks(x, z, &flat(to_load.len(), 5));
        assert_eq!(changed, !to_load.is_empty() || !to_unload.is_empty());
        for c in &to_unload {
            assert!(!state.is_loaded(c.0, c.1));
        }
        let mut expected = target.clone();
        expected.sort();
        assert_eq!(loaded(&state), expected);
    }
}

#[test]
fn chunks_that_stay_are_not_generated_again() {
    let mut state = state(1);
    reconcile(&mut state, 0, 0, 3);
    // the chunks that enter get other levels than those that stay
    reconcile(&mut state, 16, 0, 9);
    let generator = TerrainGenerator::new(42);
    let low = generator.generate_chunk(&vec![3; 256]);
    let high = generator.generate_chunk(&vec![9; 256]);
    assert!(low != high);
    for chunk in state.chunks() {
        if chunk.chunk_x == 2 {
            assert_eq!(chunk.voxels, high);
        } else {
            assert_eq!(chunk.voxels, low);
        }
    }
    // they keep their order, and the new ones follow in the order asked for
    let order: Vec<(i32, i32)> = state.chunks().iter().map(|c| (c.chunk_x, c.chunk_z)).collect();
    assert_eq!(
        order,
        vec![(0, -1), (0, 0), (0, 1), (1, -1), (1, 0), (1, 1), (2, -1), (2, 0), (2, 1)]
    );
}

#[test]
fn new_chunks_are_generated_from_their_own_levels() {
    let mut state = state(1);
    let to_load = state.chunks_to_load(0, 0);
    let samples: Vec<Vec<i32>> = (0..to_load.len()).map(|j| vec![j as i32 + 1; 256]).collect();
    state.update_chunks(0, 0, &samples);
    let generator = TerrainGenerator::new(42);
    for (j, c) in to_load.iter().enumerate() {
        let chunk = &state.chunks()[j];
        assert_eq!((chunk.chunk_x, chunk.chunk_z), *c);
        assert_eq!(chunk.voxels, generator.generate_chunk(&samples[j]));
        assert_eq!(chunk.voxels.len(), 16 * 16 * 256);
    }
}

#[test]
fn a_far_jump_replaces_every_chunk() {
    let mut state = state(1);
    reconcile(&mut state, 0, 0, 3);
    let to_load = state.chunks_to_load(16000, -16000);
    assert_eq!(to_load.len(), 9);
    assert_eq!(state.chunks_to_unload(16000, -16000), square(0, 0, 1));
    assert!(state.update_chunks(16000, -16000, &flat(9, 3)));
    assert_eq!(loaded(&state), square(1000, -1000, 1));
}

#[test]
fn a_diagonal_step_swaps_five_chunks() {
    let mut state = state(1);
    reconcile(&mut state, 0, 0, 3);
    assert_eq!(state.chunks_to_unload(16, 16).len(), 5);
    assert_eq!(state.chunks_to_load(16, 16).len(), 5);
    assert!(reconcile(&mut state, 16, 16, 3));
    assert_eq!(loaded(&state), square(1, 1, 1));
    assert_eq!(state.chunks().len(), 9);
}
