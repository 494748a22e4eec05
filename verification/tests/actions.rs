//! Action-engine behaviour: movement, rotation, collisions, sucking,
//! and reward accounting.  Rewards are hundredths of a reward unit.

use vacuum_sim::engine::{
    COST_FORWARD, COST_REVERSE, COST_ROTATE, PENALTY_BLOCK, PENALTY_HAZARD, REWARD_DOCK_SUCK,
};
use vacuum_sim::i_to_act;
use vacuum_sim::room::{CELL_HAZARD, CELL_OBSTACLE, CELL_PAD};
use vacuum_sim::Action;
use vacuum_sim::Room;

/// A 20x20 board: all cells empty except the 4x4 charging pad at
/// `(0..4, 16..20)`.
fn pad_only_cells() -> Vec<i32> {
    let mut cells = vec![0i32; 400];
    for x in 0..4 {
        for y in 16..20 {
            cells[y * 20 + x] = CELL_PAD;
        }
    }
    cells
}

fn cell(room: &Room, x: i32, y: i32) -> i32 {
    let snap = room.get_board_snapshot();
    snap[(y * room.get_xsize() + x) as usize]
}

#[test]
fn i_to_act_maps_codes() {
    assert_eq!(vacuum_sim::SIZE_ACTION, 5);
    assert!(matches!(i_to_act(0), Action::FORWARD));
    assert!(matches!(i_to_act(1), Action::REVERSE));
    assert!(matches!(i_to_act(2), Action::L));
    assert!(matches!(i_to_act(3), Action::R));
    assert!(matches!(i_to_act(4), Action::SUCK));
    assert!(matches!(i_to_act(5), Action::FORWARD));
    assert!(matches!(i_to_act(usize::MAX), Action::FORWARD));
}

#[test]
fn four_right_rotations_restore_heading() {
    let mut room = Room::new(20, 20);
    let (_, _, d0) = room.get_pose();
    assert_eq!(d0, 0);
    for _ in 0..4 {
        let r = room.perform_action(Action::R);
        assert_eq!(r, COST_ROTATE);
    }
    let (x, y, d) = room.get_pose();
    assert_eq!((x, y, d), (1, 17, 0));
}

#[test]
fn left_then_right_restores_heading() {
    let mut room = Room::from_layout(20, 20, pad_only_cells(), 10, 10, 2);
    assert_eq!(room.perform_action(Action::L), COST_ROTATE);
    assert_eq!(room.get_pose().2, 1);
    assert_eq!(room.perform_action(Action::R), COST_ROTATE);
    assert_eq!(room.get_pose().2, 2);
    assert_eq!(room.get_total_reward(), 2 * COST_ROTATE);
}

#[test]
fn forward_and_reverse_on_clear_ground() {
    let mut room = Room::from_layout(20, 20, pad_only_cells(), 10, 10, 0);
    let r = room.perform_action(Action::FORWARD);
    assert_eq!(r, COST_FORWARD);
    assert_eq!(room.get_pose(), (10, 9, 0));
    let r = room.perform_action(Action::REVERSE);
    assert_eq!(r, COST_REVERSE);
    assert_eq!(room.get_pose(), (10, 10, 0));
}

#[test]
fn forward_into_hazard_charges_and_blocks() {
    // The robot faces up; the candidate footprint at (10, 9) includes
    // (10, 8), which holds the single hazard cell.
    let mut cells = pad_only_cells();
    cells[8 * 20 + 10] = CELL_HAZARD;
    let mut room = Room::from_layout(20, 20, cells, 10, 10, 0);
    let r = room.perform_action(Action::FORWARD);
    assert_eq!(r, PENALTY_HAZARD + COST_FORWARD);
    assert_eq!(r, -5005);
    assert_eq!(room.get_pose(), (10, 10, 0));
    assert_eq!(room.get_total_reward(), -5005);
}

#[test]
fn forward_into_obstacle_charges_and_blocks() {
    let mut cells = pad_only_cells();
    cells[8 * 20 + 10] = CELL_OBSTACLE;
    let mut room = Room::from_layout(20, 20, cells, 10, 10, 0);
    let r = room.perform_action(Action::FORWARD);
    assert_eq!(r, PENALTY_BLOCK + COST_FORWARD);
    assert_eq!(room.get_pose(), (10, 10, 0));
}

#[test]
fn forward_off_grid_charges_and_blocks() {
    // Heading left at x = 1: the candidate footprint would leave the
    // grid on the left edge.
    let mut room = Room::from_layout(20, 20, pad_only_cells(), 1, 10, 3);
    let r = room.perform_action(Action::FORWARD);
    assert_eq!(r, PENALTY_BLOCK + COST_FORWARD);
    assert_eq!(room.get_pose(), (1, 10, 3));
}

#[test]
fn reverse_into_obstacle_charges_and_blocks() {
    // Heading up at (10, 10): reverse heads to (10, 11); its footprint
    // includes (10, 13).
    let mut cells = pad_only_cells();
    cells[13 * 20 + 10] = CELL_OBSTACLE;
    let mut room = Room::from_layout(20, 20, cells, 10, 10, 0);
    let r = room.perform_action(Action::REVERSE);
    assert_eq!(r, PENALTY_BLOCK + COST_REVERSE);
    assert_eq!(room.get_pose(), (10, 10, 0));
}

#[test]
fn suck_away_from_dock_cleans_dirty_cells() {
    // Heading up at (10, 10), the suction range is (9,9), (10,8),
    // (11,8), (12,9).  Two of the four cells hold dirt.
    let mut cells = pad_only_cells();
    cells[9 * 20 + 9] = 2;
    cells[8 * 20 + 10] = 1;
    let mut room = Room::from_layout(20, 20, cells, 10, 10, 0);
    let r = room.perform_action(Action::SUCK);
    assert_eq!(r, 190);
    assert_eq!(cell(&room, 9, 9), 1);
    assert_eq!(cell(&room, 10, 8), 0);
    assert_eq!(cell(&room, 11, 8), 0);
    assert_eq!(cell(&room, 12, 9), 0);
    assert_eq!(room.get_pose(), (10, 10, 0));
}

#[test]
fn suck_away_from_dock_with_no_dirt() {
    let mut room = Room::from_layout(20, 20, pad_only_cells(), 10, 10, 0);
    let r = room.perform_action(Action::SUCK);
    assert_eq!(r, -10);
}

#[test]
fn suck_at_dock_regenerates_level() {
    let mut room = Room::new(20, 20);
    let r = room.perform_action(Action::SUCK);
    assert_eq!(r, REWARD_DOCK_SUCK);
    assert_eq!(r, -20);
    // Still docked, and the regenerated pad is intact.
    assert_eq!(room.get_pose(), (1, 17, 0));
    for x in 0..4 {
        for y in 16..20 {
            assert_eq!(cell(&room, x, y), CELL_PAD);
        }
    }
    assert_eq!(room.get_total_reward(), -20);
}

#[test]
fn suck_away_from_dock_never_regenerates() {
    // A fully known board stays fully known after an undocked suck:
    // only the dirty suction-range cells change.
    let mut cells = pad_only_cells();
    cells[9 * 20 + 9] = 3;
    let before = cells.clone();
    let mut room = Room::from_layout(20, 20, cells, 10, 10, 0);
    room.perform_action(Action::SUCK);
    let after = room.get_board_snapshot();
    for i in 0..400 {
        if i == 9 * 20 + 9 {
            assert_eq!(after[i], 2);
        } else {
            assert_eq!(after[i], before[i]);
        }
    }
}

#[test]
fn total_reward_accumulates_across_steps() {
    let mut room = Room::from_layout(20, 20, pad_only_cells(), 10, 10, 0);
    let mut sum = 0i64;
    sum += room.perform_action(Action::FORWARD);
    sum += room.perform_action(Action::L);
    sum += room.perform_action(Action::REVERSE);
    sum += room.perform_action(Action::SUCK);
    assert_eq!(room.get_total_reward(), sum);
    assert_eq!(sum, -5 - 10 - 100 - 10);
}
