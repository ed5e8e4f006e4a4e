use life_sim::engine::{blank_slate, count_neighbors};
use life_sim::sim::{
    add_cell, create_json_object, get_current_state, wasm_bridge_init, wasm_bridge_update,
    GridStore, JObject, SimError, Simulation, GRID_COLS, GRID_ROWS,
};

fn started(rows: usize, cols: usize, live: &[(usize, usize)]) -> Simulation {
    let mut sim = Simulation::new();
    sim.initialize(rows, cols).unwrap();
    for &(r, c) in live {
        add_cell(&mut sim, r, c).unwrap();
    }
    sim
}

fn particles(r: Result<JObject, SimError>) -> Vec<(usize, usize)> {
    r.unwrap().active_particles
}

#[test]
fn empty_grid_stays_empty() {
    let mut sim = started(6, 7, &[]);
    let o = wasm_bridge_update(&mut sim).unwrap();
    assert_eq!(o.rows, 6);
    assert_eq!(o.cols, 7);
    assert!(o.active_particles.is_empty());
}

#[test]
fn lone_cell_dies() {
    let mut sim = started(5, 5, &[(2, 2)]);
    assert_eq!(particles(wasm_bridge_update(&mut sim)), vec![]);
}

#[test]
fn l_tromino_becomes_block() {
    let mut sim = started(5, 5, &[(1, 1), (1, 2), (2, 1)]);
    let block = vec![(1, 1), (1, 2), (2, 1), (2, 2)];
    assert_eq!(particles(wasm_bridge_update(&mut sim)), block);
    assert_eq!(particles(wasm_bridge_update(&mut sim)), block);
}

#[test]
fn blinker_has_period_two() {
    let mut sim = started(5, 5, &[(1, 1), (1, 2), (1, 3)]);
    assert_eq!(particles(wasm_bridge_update(&mut sim)), vec![(0, 2), (1, 2), (2, 2)]);
    assert_eq!(particles(wasm_bridge_update(&mut sim)), vec![(1, 1), (1, 2), (1, 3)]);
}

#[test]
fn seed_out_of_bounds_changes_nothing() {
    let mut sim = started(5, 6, &[(3, 4)]);
    let before = get_current_state(&sim).unwrap();
    assert_eq!(add_cell(&mut sim, 5, 0), Err(SimError::OutOfBounds { row: 5, col: 0 }));
    assert_eq!(add_cell(&mut sim, 0, 6), Err(SimError::OutOfBounds { row: 0, col: 6 }));
    assert_eq!(add_cell(&mut sim, 9, 9), Err(SimError::OutOfBounds { row: 9, col: 9 }));
    assert_eq!(get_current_state(&sim).unwrap(), before);
    assert_eq!(before.active_particles, vec![(3, 4)]);
}

#[test]
fn step_before_initialize_fails() {
    let mut sim = Simulation::new();
    assert_eq!(wasm_bridge_update(&mut sim), Err(SimError::NotInitialized));
    assert_eq!(get_current_state(&sim), Err(SimError::NotInitialized));
    assert_eq!(add_cell(&mut sim, 0, 0), Err(SimError::NotInitialized));
}

#[test]
fn query_twice_is_the_same() {
    let sim = started(4, 4, &[(0, 3), (2, 1), (1, 1)]);
    let a = get_current_state(&sim).unwrap();
    let b = get_current_state(&sim).unwrap();
    assert_eq!(a, b);
    assert_eq!(a.active_particles, vec![(0, 3), (1, 1), (2, 1)]);
}

#[test]
fn corner_has_three_neighbors() {
    let mut grid = blank_slate(4, 4);
    for row in grid.iter_mut() {
        for cell in row.iter_mut() {
            *cell = true;
        }
    }
    assert_eq!(count_neighbors(&grid, 4, 0, 0), 3);
    assert_eq!(count_neighbors(&grid, 4, 0, 2), 5);
    assert_eq!(count_neighbors(&grid, 4, 3, 3), 3);
    assert_eq!(count_neighbors(&grid, 4, 1, 2), 8);
}

#[test]
fn no_wraparound_at_edges() {
    // with wraparound, (4, 4) would see three live neighbours and be born
    let mut sim = started(5, 5, &[(0, 0), (0, 4), (4, 0)]);
    assert_eq!(particles(wasm_bridge_update(&mut sim)), vec![]);
}

#[test]
fn corner_block_is_stable() {
    let mut sim = started(3, 3, &[(0, 0), (0, 1), (1, 0)]);
    assert_eq!(particles(wasm_bridge_update(&mut sim)), vec![(0, 0), (0, 1), (1, 0), (1, 1)]);
}

#[test]
fn overcrowded_cell_dies() {
    // the centre has four live neighbours; the corners have one or two
    let mut sim = started(3, 3, &[(0, 1), (1, 0), (1, 1), (1, 2), (2, 1)]);
    assert_eq!(
        particles(wasm_bridge_update(&mut sim)),
        vec![(0, 0), (0, 1), (0, 2), (1, 0), (1, 2), (2, 0), (2, 1), (2, 2)]
    );
}

#[test]
fn fixed_configuration() {
    assert_eq!(GRID_COLS, 240);
    assert_eq!(GRID_ROWS, 160);
    let mut sim = Simulation::new();
    assert_eq!(wasm_bridge_init(&mut sim), Ok(()));
    add_cell(&mut sim, 159, 239).unwrap();
    assert_eq!(add_cell(&mut sim, 160, 0), Err(SimError::OutOfBounds { row: 160, col: 0 }));
    assert_eq!(add_cell(&mut sim, 0, 240), Err(SimError::OutOfBounds { row: 0, col: 240 }));
    let o = get_current_state(&sim).unwrap();
    assert_eq!((o.rows, o.cols), (160, 240));
    assert_eq!(o.active_particles, vec![(159, 239)]);
}

#[test]
fn second_initialize_keeps_the_grid() {
    let mut sim = Simulation::new();
    wasm_bridge_init(&mut sim).unwrap();
    add_cell(&mut sim, 3, 3).unwrap();
    assert_eq!(wasm_bridge_init(&mut sim), Err(SimError::AlreadyInitialized));
    assert_eq!(sim.initialize(5, 5), Err(SimError::AlreadyInitialized));
    let o = get_current_state(&sim).unwrap();
    assert_eq!((o.rows, o.cols), (160, 240));
    assert_eq!(o.active_particles, vec![(3, 3)]);
}

#[test]
fn store_swaps_buffers() {
    let mut store = GridStore::new(3, 3);
    store.set_alive(1, 1);
    assert_eq!(store.snapshot().active_particles, vec![(1, 1)]);
    store.swap_buffers();
    assert!(store.snapshot().active_particles.is_empty());
    store.swap_buffers();
    assert_eq!(store.snapshot().active_particles, vec![(1, 1)]);
    store.advance();
    assert!(store.snapshot().active_particles.is_empty());
}

#[test]
fn record_lists_live_cells_in_order() {
    let mut grid = blank_slate(3, 4);
    grid[2][0] = true;
    grid[0][3] = true;
    grid[0][1] = true;
    let o = create_json_object(&grid, 3, 4);
    assert_eq!((o.rows, o.cols), (3, 4));
    assert_eq!(o.active_particles, vec![(0, 1), (0, 3), (2, 0)]);
    assert_eq!(JObject::new(7, 8), JObject { rows: 7, cols: 8, active_particles: vec![] });
}
