//! Static footprint tables, keyed by heading (`0` up, `1` right,
//! `2` down, `3` left).
//!
//! The occupied-cells table lists the 14 `(dx, dy)` offsets, relative
//! to the robot's reference corner, of the cells a robot covers; its
//! nose-forward shape leaves out the two leading corner cells.  The
//! suction-range table lists the 4 offsets of the cells directly ahead
//! of the robot, ordered left-to-right relative to the heading.  Both
//! tables are part of the behavioural contract and must keep these
//! exact shapes.

use vstd::prelude::*;

verus! {

/// The 14 cell offsets a robot with heading `dirn` occupies.
pub open spec fn occ_offsets(dirn: int) -> Seq<(int, int)> {
    if dirn == 0 {
        seq![
            (0, -1),
            (1, -1),
            (-1, 0),
            (0, 0),
            (1, 0),
            (2, 0),
            (-1, 1),
            (0, 1),
            (1, 1),
            (2, 1),
            (-1, 2),
            (0, 2),
            (1, 2),
            (2, 2),
        ]
    } else if dirn == 1 {
        seq![
            (-1, -1),
            (0, -1),
            (1, -1),
            (-1, 0),
            (0, 0),
            (1, 0),
            (2, 0),
            (-1, 1),
            (0, 1),
            (1, 1),
            (2, 1),
            (-1, 2),
            (0, 2),
            (1, 2),
        ]
    } else if dirn == 2 {
        seq![
            (-1, -1),
            (0, -1),
            (1, -1),
            (2, -1),
            (-1, 0),
            (0, 0),
            (1, 0),
            (2, 0),
            (-1, 1),
            (0, 1),
            (1, 1),
            (2, 1),
            (0, 2),
            (1, 2),
        ]
    } else {
        seq![
            (0, -1),
            (1, -1),
            (2, -1),
            (-1, 0),
            (0, 0),
            (1, 0),
            (2, 0),
            (-1, 1),
            (0, 1),
            (1, 1),
            (2, 1),
            (0, 2),
            (1, 2),
            (2, 2),
        ]
    }
}

/// The 4 suction-range offsets directly ahead of a robot with heading
/// `dirn`, ordered left-to-right relative to that heading.
pub open spec fn suction_offsets(dirn: int) -> Seq<(int, int)> {
    if dirn == 0 {
        seq![(-1, -1), (0, -2), (1, -2), (2, -1)]
    } else if dirn == 1 {
        seq![(2, -1), (3, 0), (3, 1), (2, 2)]
    } else if dirn == 2 {
        seq![(2, 2), (1, 3), (0, 3), (-1, 2)]
    } else {
        seq![(-1, 2), (-2, 1), (-2, 0), (-1, -1)]
    }
}

/// The absolute grid position of occupied cell `k` for a robot whose
/// reference corner is at `(x, y)` with heading `dirn`.
pub open spec fn occ_cell(x: int, y: int, dirn: int, k: int) -> (int, int) {
    (x + occ_offsets(dirn)[k].0, y + occ_offsets(dirn)[k].1)
}

/// The absolute grid position of suction-range cell `k` for a robot at
/// `(x, y)` with heading `dirn`.
pub open spec fn suction_cell(x: int, y: int, dirn: int, k: int) -> (int, int) {
    (x + suction_offsets(dirn)[k].0, y + suction_offsets(dirn)[k].1)
}

/// The four suction-range cells of one pose are pairwise distinct.
pub proof fn lemma_suction_cells_distinct(x: int, y: int, dirn: int)
    requires
        0 <= dirn < 4,
    ensures
        forall|j: int, k: int|
            0 <= j < 4 && 0 <= k < 4 && j != k ==> #[trigger] suction_cell(x, y, dirn, j)
                != #[trigger] suction_cell(x, y, dirn, k),
{
    assert forall|j: int, k: int|
        0 <= j < 4 && 0 <= k < 4 && j != k implies #[trigger] suction_cell(x, y, dirn, j)
        != #[trigger] suction_cell(x, y, dirn, k) by {
        assert(suction_offsets(dirn)[j] != suction_offsets(dirn)[k]);
    }
}

/// Every heading's footprint reaches the four extreme offsets
/// `(-1, 0)`, `(2, 0)`, `(0, -1)` and `(0, 2)`: a pose whose whole
/// footprint is on the grid therefore keeps the full 4x4 region
/// `(x-1..x+3, y-1..y+3)` on the grid.
pub proof fn lemma_occ_covers_extremes(dirn: int)
    requires
        0 <= dirn < 4,
    ensures
        exists|k: int| 0 <= k < 14 && #[trigger] occ_offsets(dirn)[k] == (-1int, 0int),
        exists|k: int| 0 <= k < 14 && #[trigger] occ_offsets(dirn)[k] == (2int, 0int),
        exists|k: int| 0 <= k < 14 && #[trigger] occ_offsets(dirn)[k] == (0int, -1int),
        exists|k: int| 0 <= k < 14 && #[trigger] occ_offsets(dirn)[k] == (0int, 2int),
{
    if dirn == 0 {
        assert(occ_offsets(0)[2] == (-1int, 0int));
        assert(occ_offsets(0)[5] == (2int, 0int));
        assert(occ_offsets(0)[0] == (0int, -1int));
        assert(occ_offsets(0)[11] == (0int, 2int));
    } else if dirn == 1 {
        assert(occ_offsets(1)[3] == (-1int, 0int));
        assert(occ_offsets(1)[6] == (2int, 0int));
        assert(occ_offsets(1)[1] == (0int, -1int));
        assert(occ_offsets(1)[12] == (0int, 2int));
    } else if dirn == 2 {
        assert(occ_offsets(2)[4] == (-1int, 0int));
        assert(occ_offsets(2)[7] == (2int, 0int));
        assert(occ_offsets(2)[1] == (0int, -1int));
        assert(occ_offsets(2)[12] == (0int, 2int));
    } else {
        assert(occ_offsets(3)[3] == (-1int, 0int));
        assert(occ_offsets(3)[6] == (2int, 0int));
        assert(occ_offsets(3)[0] == (0int, -1int));
        assert(occ_offsets(3)[11] == (0int, 2int));
    }
}

/// Given a candidate reference corner `(x, y)` and heading `dirn`,
/// returns the 14 absolute grid positions the robot would cover.
pub fn get_occupied_squares(x: i32, y: i32, dirn: i32) -> (sq: Vec<(i32, i32)>)
    requires
        0 <= dirn < 4,
        i32::MIN <= x - 1,
        x + 2 <= i32::MAX,
        i32::MIN <= y - 1,
        y + 2 <= i32::MAX,
    ensures
        sq@.len() == 14,
        forall|k: int|
            #![trigger sq@[k]]
            0 <= k < 14 ==> (sq@[k].0 as int, sq@[k].1 as int) == occ_cell(
                x as int,
                y as int,
                dirn as int,
                k,
            ),
{
    let mut sq: Vec<(i32, i32)> = Vec::new();
    if dirn == 0 {
        sq.push((x, y - 1));
        sq.push((x + 1, y - 1));
        sq.push((x - 1, y));
        sq.push((x, y));
        sq.push((x + 1, y));
        sq.push((x + 2, y));
        sq.push((x - 1, y + 1));
        sq.push((x, y + 1));
        sq.push((x + 1, y + 1));
        sq.push((x + 2, y + 1));
        sq.push((x - 1, y + 2));
        sq.push((x, y + 2));
        sq.push((x + 1, y + 2));
        sq.push((x + 2, y + 2));
    } else if dirn == 1 {
        sq.push((x - 1, y - 1));
        sq.push((x, y - 1));
        sq.push((x + 1, y - 1));
        sq.push((x - 1, y));
        sq.push((x, y));
        sq.push((x + 1, y));
        sq.push((x + 2, y));
        sq.push((x - 1, y + 1));
        sq.push((x, y + 1));
        sq.push((x + 1, y + 1));
        sq.push((x + 2, y + 1));
        sq.push((x - 1, y + 2));
        sq.push((x, y + 2));
        sq.push((x + 1, y + 2));
    } else if dirn == 2 {
        sq.push((x - 1, y - 1));
        sq.push((x, y - 1));
        sq.push((x + 1, y - 1));
        sq.push((x + 2, y - 1));
        sq.push((x - 1, y));
        sq.push((x, y));
        sq.push((x + 1, y));
        sq.push((x + 2, y));
        sq.push((x - 1, y + 1));
        sq.push((x, y + 1));
        sq.push((x + 1, y + 1));
        sq.push((x + 2, y + 1));
        sq.push((x, y + 2));
        sq.push((x + 1, y + 2));
    } else {
        sq.push((x, y - 1));
        sq.push((x + 1, y - 1));
        sq.push((x + 2, y - 1));
        sq.push((x - 1, y));
        sq.push((x, y));
        sq.push((x + 1, y));
        sq.push((x + 2, y));
        sq.push((x - 1, y + 1));
        sq.push((x, y + 1));
        sq.push((x + 1, y + 1));
        sq.push((x + 2, y + 1));
        sq.push((x, y + 2));
        sq.push((x + 1, y + 2));
        sq.push((x + 2, y + 2));
    }
    sq
}

/// Given a robot pose, returns the 4 absolute suction-range positions,
/// ordered left-to-right relative to the heading.
pub fn suction_squares(x: i32, y: i32, dirn: i32) -> (sq: Vec<(i32, i32)>)
    requires
        0 <= dirn < 4,
        i32::MIN <= x - 2,
        x + 3 <= i32::MAX,
        i32::MIN <= y - 2,
        y + 3 <= i32::MAX,
    ensures
        sq@.len() == 4,
        forall|k: int|
            #![trigger sq@[k]]
            0 <= k < 4 ==> (sq@[k].0 as int, sq@[k].1 as int) == suction_cell(
                x as int,
                y as int,
                dirn as int,
                k,
            ),
{
    let mut sq: Vec<(i32, i32)> = Vec::new();
    if dirn == 0 {
        sq.push((x - 1, y - 1));
        sq.push((x, y - 2));
        sq.push((x + 1, y - 2));
        sq.push((x + 2, y - 1));
    } else if dirn == 1 {
        sq.push((x + 2, y - 1));
        sq.push((x + 3, y));
        sq.push((x + 3, y + 1));
        sq.push((x + 2, y + 2));
    } else if dirn == 2 {
        sq.push((x + 2, y + 2));
        sq.push((x + 1, y + 3));
        sq.push((x, y + 3));
        sq.push((x - 1, y + 2));
    } else {
        sq.push((x - 1, y + 2));
        sq.push((x - 2, y + 1));
        sq.push((x - 2, y));
        sq.push((x - 1, y - 1));
    }
    sq
}

} // verus!
