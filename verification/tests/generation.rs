//! Level generation: the charging pad invariant, hazard rectangles,
//! dirt scattering, and obstacle growth.

use vacuum_sim::room::{CELL_HAZARD, CELL_OBSTACLE, CELL_PAD};
use vacuum_sim::Room;

fn pad_only_cells() -> Vec<i32> {
    let mut cells = vec![0i32; 400];
    for x in 0..4 {
        for y in 16..20 {
            cells[y * 20 + x] = CELL_PAD;
        }
    }
    cells
}

fn cell(room: &Room, x: i32, y: i32) -> i32 {
    let snap = room.get_board_snapshot();
    snap[(y * room.get_xsize() + x) as usize]
}

#[test]
fn generated_board_has_exactly_sixteen_pad_cells() {
    // On a 20x20 grid no hazards are placed (400 / 800 == 0), and
    // neither obstacles nor dirt ever touch a pad cell, so the only
    // cells valued -1 are the 16 pad cells.
    let room = Room::new(20, 20);
    let snap = room.get_board_snapshot();
    let pads = snap.iter().filter(|&&c| c == CELL_PAD).count();
    assert_eq!(pads, 16);
    for x in 0..4 {
        for y in 16..20 {
            assert_eq!(cell(&room, x, y), CELL_PAD);
        }
    }
}

#[test]
fn generated_board_pad_intact_on_larger_grids() {
    let room = Room::new(40, 30);
    let ys = room.get_ysize();
    for x in 0..4 {
        for y in (ys - 4)..ys {
            assert_eq!(cell(&room, x, y), CELL_PAD);
        }
    }
    // Every cell carries a value of the cell encoding.
    for &c in room.get_board_snapshot().iter() {
        assert!(c >= CELL_HAZARD);
    }
}

#[test]
fn smallest_room_is_all_pad() {
    let room = Room::new(4, 4);
    let snap = room.get_board_snapshot();
    assert_eq!(snap.len(), 16);
    for &c in snap.iter() {
        assert_eq!(c, CELL_PAD);
    }
    assert_eq!(room.get_pose(), (1, 1, 0));
}

#[test]
fn hazard_rectangle_is_stamped_exactly() {
    let mut room = Room::from_layout(20, 20, pad_only_cells(), 10, 10, 0);
    room.place_hazard_at(12, 2, 4, 3);
    let snap = room.get_board_snapshot();
    for x in 0..20 {
        for y in 0..20 {
            let expected = if (12..16).contains(&x) && (2..5).contains(&y) {
                CELL_HAZARD
            } else if (0..4).contains(&x) && (16..20).contains(&y) {
                CELL_PAD
            } else {
                0
            };
            assert_eq!(snap[(y * 20 + x) as usize], expected);
        }
    }
}

#[test]
fn hazard_rectangle_is_clipped_at_the_edge() {
    let mut room = Room::from_layout(20, 20, pad_only_cells(), 10, 10, 0);
    room.place_hazard_at(17, 0, 11, 2);
    for x in 17..20 {
        for y in 0..2 {
            assert_eq!(cell(&room, x, y), CELL_HAZARD);
        }
    }
    assert_eq!(cell(&room, 16, 0), 0);
    assert_eq!(cell(&room, 17, 2), 0);
}

#[test]
fn hazard_near_charging_pad_is_skipped() {
    let mut room = Room::from_layout(20, 20, pad_only_cells(), 10, 10, 0);
    let before = room.get_board_snapshot();
    // Anchor x < 8 and clipped bottom 17 > ysize - 8 = 12: skipped.
    room.place_hazard_at(0, 13, 4, 4);
    assert_eq!(room.get_board_snapshot(), before);
}

#[test]
fn dirt_increments_empty_and_dirty_cells_only() {
    let mut cells = pad_only_cells();
    cells[5 * 20 + 5] = CELL_OBSTACLE;
    let mut room = Room::from_layout(20, 20, cells, 10, 10, 0);
    room.place_dirt_at(6, 5);
    room.place_dirt_at(6, 5);
    assert_eq!(cell(&room, 6, 5), 2);
    // An obstacle cell and a pad cell are left alone.
    room.place_dirt_at(5, 5);
    assert_eq!(cell(&room, 5, 5), CELL_OBSTACLE);
    room.place_dirt_at(0, 16);
    assert_eq!(cell(&room, 0, 16), CELL_PAD);
}

#[test]
fn obstacle_ray_claims_first_empty_cell() {
    let mut cells = pad_only_cells();
    cells[10 * 20 + 10] = CELL_OBSTACLE;
    cells[10 * 20 + 11] = CELL_OBSTACLE;
    let mut room = Room::from_layout(20, 20, cells, 5, 5, 0);
    // Sliding right from (10, 10) passes through the obstacle at
    // (11, 10) and claims (12, 10).
    let claimed = room.grow_ray(10, 10, 1);
    assert_eq!(claimed, Some((12, 10)));
    assert_eq!(cell(&room, 12, 10), CELL_OBSTACLE);
}

#[test]
fn obstacle_ray_blocked_by_other_content() {
    let mut cells = pad_only_cells();
    cells[10 * 20 + 10] = CELL_OBSTACLE;
    cells[10 * 20 + 11] = CELL_HAZARD;
    let mut room = Room::from_layout(20, 20, cells, 5, 5, 0);
    let claimed = room.grow_ray(10, 10, 1);
    assert_eq!(claimed, None);
    assert_eq!(cell(&room, 11, 10), CELL_HAZARD);
    assert_eq!(cell(&room, 12, 10), 0);
}

#[test]
fn obstacle_ray_stops_at_grid_edge() {
    let mut room = Room::from_layout(20, 20, pad_only_cells(), 10, 10, 0);
    // Sliding up from (19, 0) leaves the grid at once.
    let claimed = room.grow_ray(19, 0, 0);
    assert_eq!(claimed, None);
    assert_eq!(room.get_board_snapshot(), pad_only_cells());
}

#[test]
fn obstacle_ray_stops_at_exclusion_zone() {
    let mut room = Room::from_layout(20, 20, pad_only_cells(), 10, 10, 0);
    // Sliding down from (5, 12): the next cell (5, 13) is inside the
    // charging-pad exclusion zone (x < 8 and y > 12).
    let claimed = room.grow_ray(5, 12, 2);
    assert_eq!(claimed, None);
    assert_eq!(room.get_board_snapshot(), pad_only_cells());
}

#[test]
fn board_snapshot_matches_dimensions() {
    let room = Room::new(24, 18);
    assert_eq!(room.get_xsize(), 24);
    assert_eq!(room.get_ysize(), 18);
    assert_eq!(room.get_board_snapshot().len(), 24 * 18);
}
