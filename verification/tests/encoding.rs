//! The fixed 403-entry state vector.

use vacuum_sim::room::{CELL_HAZARD, CELL_OBSTACLE, CELL_PAD};
use vacuum_sim::Room;
use vacuum_sim::SIZE_STATE;

fn pad_only_cells() -> Vec<i32> {
    let mut cells = vec![0i32; 400];
    for x in 0..4 {
        for y in 16..20 {
            cells[y * 20 + x] = CELL_PAD;
        }
    }
    cells
}

#[test]
fn state_vector_always_has_length_403() {
    assert_eq!(SIZE_STATE, 403);
    // Robot in the middle: the window fits the grid.
    let room = Room::from_layout(20, 20, pad_only_cells(), 10, 10, 0);
    assert_eq!(room.get_nn_input().len(), 403);
    // Docked robot: the window extends outside the grid.
    let room = Room::new(20, 20);
    assert_eq!(room.get_nn_input().len(), 403);
    // Tiny grid: most of the window is outside the grid.
    let room = Room::new(4, 4);
    assert_eq!(room.get_nn_input().len(), 403);
    // Large grid.
    let room = Room::new(48, 32);
    assert_eq!(room.get_nn_input().len(), 403);
}

#[test]
fn state_vector_offsets_and_heading() {
    let room = Room::from_layout(20, 20, pad_only_cells(), 10, 12, 3);
    let v = room.get_nn_input();
    assert_eq!(v[400], 10 - 1);
    assert_eq!(v[401], 20 - 12 - 3);
    assert_eq!(v[402], 3);
}

#[test]
fn state_vector_window_samples_the_board() {
    // Entry i samples (x + i % 20 - 9, y + i / 20 - 9).
    let mut cells = pad_only_cells();
    cells[6 * 20 + 12] = 5;
    cells[8 * 20 + 9] = CELL_HAZARD;
    let room = Room::from_layout(20, 20, cells, 10, 10, 0);
    let v = room.get_nn_input();
    // (12, 6) appears at window coordinates (11, 5): i = 5 * 20 + 11.
    assert_eq!(v[5 * 20 + 11], 5);
    // (9, 8) appears at window coordinates (8, 7): i = 7 * 20 + 8.
    assert_eq!(v[7 * 20 + 8], CELL_HAZARD);
    // The robot's own reference cell (10, 10) sits at window (9, 9).
    assert_eq!(v[9 * 20 + 9], 0);
}

#[test]
fn out_of_grid_window_cells_read_as_obstacles() {
    // Docked at (1, 17): window x runs from -8, window y from 8.
    let room = Room::from_layout(20, 20, pad_only_cells(), 1, 17, 0);
    let v = room.get_nn_input();
    // Window (0, 0) samples (-8, 8): outside the grid.
    assert_eq!(v[0], CELL_OBSTACLE);
    // Window (9, 9) samples (1, 17): the robot's pad cell.
    assert_eq!(v[9 * 20 + 9], CELL_PAD);
    // Window (19, 11) samples (11, 19): bottom row, inside.
    assert_eq!(v[11 * 20 + 19], 0);
    // Window (5, 12) samples (-3, 20): outside.
    assert_eq!(v[12 * 20 + 5], CELL_OBSTACLE);
}
