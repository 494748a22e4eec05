//! The action engine: applies one action to the robot against the
//! board, performing collision checks, dirt removal, and level
//! regeneration, and returns the step reward.
//!
//! Rewards and penalties are exact hundredths of a reward unit,
//! carried as `i64`: a forward step costs 0.05 units (`-5`), a reverse
//! step 1.0 (`-100`), a rotation 0.1 (`-10`); colliding with an
//! obstacle or the grid edge is penalised 20.0 (`-2000`), with a
//! hazard 50.0 (`-5000`); cleaning pays 1.0 (`100`) per dirt unit and
//! a suck attempt costs 0.1 (`-10`); a dock-triggered regeneration
//! costs 0.2 (`-20`).

use vstd::prelude::*;

use crate::footprint::{
    get_occupied_squares, lemma_occ_covers_extremes, lemma_suction_cells_distinct, occ_cell,
    occ_offsets, suction_cell, suction_squares,
};
use crate::room::{lemma_wf_same_cells, Room, RoomView, CELL_HAZARD, CELL_OBSTACLE, CELL_PAD};
use crate::Action;

verus! {

/// Movement cost of a forward step, in hundredths.
pub const COST_FORWARD: i64 = -5;

/// Movement cost of a reverse step, in hundredths.
pub const COST_REVERSE: i64 = -100;

/// Movement cost of a rotation, in hundredths.
pub const COST_ROTATE: i64 = -10;

/// Penalty floor for hitting an obstacle or the grid edge, in
/// hundredths.
pub const PENALTY_BLOCK: i64 = -2000;

/// Penalty floor for hitting a hazard, in hundredths.
pub const PENALTY_HAZARD: i64 = -5000;

/// Reward of a suck on the charging pad (a level regeneration), in
/// hundredths.
pub const REWARD_DOCK_SUCK: i64 = -20;

/// Reward per dirt unit removed, in hundredths.
pub const REWARD_PER_DIRT: i64 = 100;

/// Fixed cost of a suck away from the pad, in hundredths.
pub const COST_SUCK: i64 = -10;

/// The heading after a counter-clockwise rotation.
pub open spec fn rot_left(d: int) -> int {
    (d + 3) % 4
}

/// The heading after a clockwise rotation.
pub open spec fn rot_right(d: int) -> int {
    (d + 1) % 4
}

/// Law: `L` undoes `R` and vice versa, and four rotations either way
/// return any reachable heading to itself.
pub proof fn lemma_rotation_round_trip(d: int)
    requires
        0 <= d < 4,
    ensures
        rot_left(rot_right(d)) == d,
        rot_right(rot_left(d)) == d,
        rot_left(rot_left(rot_left(rot_left(d)))) == d,
        rot_right(rot_right(rot_right(rot_right(d)))) == d,
{
}

/// The `(dx, dy)` a forward step takes under heading `d`; a reverse
/// step takes the negation.
pub open spec fn forward_delta(d: int) -> (int, int) {
    if d == 0 {
        (0, -1)
    } else if d == 1 {
        (1, 0)
    } else if d == 2 {
        (0, 1)
    } else {
        (-1, 0)
    }
}

/// The candidate reference corner a movement action steers toward;
/// rotations and sucks keep the position.
pub open spec fn candidate_pos(v: RoomView, a: Action) -> (int, int) {
    if a == Action::FORWARD {
        (v.x + forward_delta(v.dirn).0, v.y + forward_delta(v.dirn).1)
    } else if a == Action::REVERSE {
        (v.x - forward_delta(v.dirn).0, v.y - forward_delta(v.dirn).1)
    } else {
        (v.x, v.y)
    }
}

/// A position a robot may not enter: outside the grid or an obstacle
/// cell.
pub open spec fn blocks(v: RoomView, p: (int, int)) -> bool {
    !v.in_bounds(p.0, p.1) || v.cell(p.0, p.1) == CELL_OBSTACLE
}

/// An in-bounds hazard cell.
pub open spec fn hazard(v: RoomView, p: (int, int)) -> bool {
    v.in_bounds(p.0, p.1) && v.cell(p.0, p.1) == CELL_HAZARD
}

/// Some cell of the footprint at `(x, y)` with heading `dirn` lies on
/// a hazard.
pub open spec fn footprint_hits_hazard(v: RoomView, x: int, y: int, dirn: int) -> bool {
    exists|k: int| 0 <= k < 14 && hazard(v, #[trigger] occ_cell(x, y, dirn, k))
}

/// Some cell of the footprint at `(x, y)` with heading `dirn` lies on
/// an obstacle or outside the grid.
pub open spec fn footprint_blocked(v: RoomView, x: int, y: int, dirn: int) -> bool {
    exists|k: int| 0 <= k < 14 && blocks(v, #[trigger] occ_cell(x, y, dirn, k))
}

/// The collision penalty of a candidate pose: the floor over all
/// footprint cells, taking the worst single contribution once.
pub open spec fn collision_penalty(v: RoomView, x: int, y: int, dirn: int) -> int {
    if footprint_hits_hazard(v, x, y, dirn) {
        PENALTY_HAZARD as int
    } else if footprint_blocked(v, x, y, dirn) {
        PENALTY_BLOCK as int
    } else {
        0
    }
}

/// The fixed cost a movement or rotation action always charges.
pub open spec fn move_cost(a: Action) -> int {
    if a == Action::FORWARD {
        COST_FORWARD as int
    } else if a == Action::REVERSE {
        COST_REVERSE as int
    } else {
        COST_ROTATE as int
    }
}

/// Suction-range cell `k` of the robot's pose is on the grid and
/// holds dirt.
pub open spec fn suction_dirty(v: RoomView, k: int) -> bool {
    let p = suction_cell(v.x, v.y, v.dirn, k);
    v.in_bounds(p.0, p.1) && v.cell(p.0, p.1) > 0
}

/// How many of the first `n` suction-range cells hold dirt.
pub open spec fn cleaned_upto(v: RoomView, n: int) -> int
    decreases n,
{
    if n <= 0 {
        0
    } else {
        cleaned_upto(v, n - 1) + (if suction_dirty(v, n - 1) {
            1int
        } else {
            0int
        })
    }
}

/// `(cx, cy)` is one of the first `n` suction-range cells of the
/// robot's pose.
pub open spec fn in_suction_prefix(v: RoomView, n: int, cx: int, cy: int) -> bool {
    exists|k: int| 0 <= k < n && #[trigger] suction_cell(v.x, v.y, v.dirn, k) == (cx, cy)
}

/// `(cx, cy)` lies in the robot's suction range.
pub open spec fn in_suction_range(v: RoomView, cx: int, cy: int) -> bool {
    in_suction_prefix(v, 4, cx, cy)
}

/// The reward of a suck away from the pad: one unit per cleaned cell,
/// minus the fixed suck cost.
pub open spec fn suck_reward(v: RoomView) -> int {
    REWARD_PER_DIRT * cleaned_upto(v, 4) + COST_SUCK
}

impl Room {
    /// Scans the occupied-cells footprint of a candidate pose and
    /// returns the collision penalty floor.
    fn movement_penalty(&self, nx: i32, ny: i32, dirn: i32) -> (pen: i64)
        requires
            self@.grid_wf(),
            0 <= dirn < 4,
            i32::MIN <= nx - 1,
            nx + 2 <= i32::MAX,
            i32::MIN <= ny - 1,
            ny + 2 <= i32::MAX,
        ensures
            pen == collision_penalty(self@, nx as int, ny as int, dirn as int),
    {
        let xs: i32 = self.get_xsize();
        let ys: i32 = self.get_ysize();
        let squares: Vec<(i32, i32)> = get_occupied_squares(nx, ny, dirn);
        let mut pen: i64 = 0;
        let mut k: usize = 0;
        while k < 14
            invariant
                self@.grid_wf(),
                xs == self@.xsize,
                ys == self@.ysize,
                0 <= dirn < 4,
                squares@.len() == 14,
                forall|j: int|
                    #![trigger squares@[j]]
                    0 <= j < 14 ==> (squares@[j].0 as int, squares@[j].1 as int) == occ_cell(
                        nx as int,
                        ny as int,
                        dirn as int,
                        j,
                    ),
                0 <= k <= 14,
                pen == 0 || pen == PENALTY_BLOCK || pen == PENALTY_HAZARD,
                (pen == PENALTY_HAZARD) <==> (exists|j: int|
                    0 <= j < k && hazard(self@, #[trigger] occ_cell(nx as int, ny as int, dirn as int, j))),
                (pen == PENALTY_BLOCK) <==> ((forall|j: int|
                    0 <= j < k ==> !hazard(self@, #[trigger] occ_cell(nx as int, ny as int, dirn as int, j)))
                    && (exists|j: int|
                    0 <= j < k && blocks(self@, #[trigger] occ_cell(nx as int, ny as int, dirn as int, j)))),
            decreases 14 - k,
        {
            let (cx, cy): (i32, i32) = squares[k];
            proof {
                assert((squares@[k as int].0 as int, squares@[k as int].1 as int) == occ_cell(
                    nx as int,
                    ny as int,
                    dirn as int,
                    k as int,
                ));
            }
            if cx >= 0 && cx < xs && cy >= 0 && cy < ys {
                let v: i32 = self.cell_at(cx, cy);
                if v == CELL_OBSTACLE && pen > PENALTY_BLOCK {
                    pen = PENALTY_BLOCK;
                }
                if v == CELL_HAZARD && pen > PENALTY_HAZARD {
                    pen = PENALTY_HAZARD;
                }
            } else {
                if pen > PENALTY_BLOCK {
                    pen = PENALTY_BLOCK;
                }
            }
            k = k + 1;
        }
        pen
    }

    /// The four suction-range cells of the robot's current pose,
    /// ordered left-to-right relative to its heading.
    pub fn get_suction_range(&self) -> (sq: Vec<(i32, i32)>)
        requires
            self.wf(),
        ensures
            sq@.len() == 4,
            forall|k: int|
                #![trigger sq@[k]]
                0 <= k < 4 ==> (sq@[k].0 as int, sq@[k].1 as int) == suction_cell(
                    self@.x,
                    self@.y,
                    self@.dirn,
                    k,
                ),
    {
        let (x0, y0, d0): (i32, i32, i32) = self.get_pose();
        suction_squares(x0, y0, d0)
    }

    /// Applies one action and returns its reward, which is also added
    /// to the cumulative total.
    ///
    /// A movement action charges the collision-penalty floor of its
    /// candidate footprint plus the fixed movement cost; a colliding
    /// candidate pose is discarded while the penalty is still charged.
    /// A rotation always commits and charges the rotation cost.  A
    /// suck on the dock regenerates the level; elsewhere it removes
    /// one dirt unit from each dirty suction-range cell and pays per
    /// cell cleaned.
    pub fn perform_action(&mut self, a: Action) -> (r: i64)
        requires
            old(self).wf(),
            old(self)@.total + 400 <= i64::MAX,
            i64::MIN + 5100 <= old(self)@.total,
        ensures
            final(self).wf(),
            final(self)@.xsize == old(self)@.xsize,
            final(self)@.ysize == old(self)@.ysize,
            final(self)@.total == old(self)@.total + r,
            a == Action::L ==> {
                &&& r == COST_ROTATE
                &&& final(self)@.cells == old(self)@.cells
                &&& final(self)@.x == old(self)@.x
                &&& final(self)@.y == old(self)@.y
                &&& final(self)@.dirn == rot_left(old(self)@.dirn)
            },
            a == Action::R ==> {
                &&& r == COST_ROTATE
                &&& final(self)@.cells == old(self)@.cells
                &&& final(self)@.x == old(self)@.x
                &&& final(self)@.y == old(self)@.y
                &&& final(self)@.dirn == rot_right(old(self)@.dirn)
            },
            a == Action::FORWARD || a == Action::REVERSE ==> {
                let cand = candidate_pos(old(self)@, a);
                let p = collision_penalty(old(self)@, cand.0, cand.1, old(self)@.dirn);
                &&& r == p + move_cost(a)
                &&& final(self)@.cells == old(self)@.cells
                &&& final(self)@.dirn == old(self)@.dirn
                &&& (p == 0 ==> final(self)@.x == cand.0 && final(self)@.y == cand.1)
                &&& (p != 0 ==> final(self)@.x == old(self)@.x && final(self)@.y == old(self)@.y)
            },
            a == Action::SUCK && old(self)@.docked() ==> {
                &&& r == REWARD_DOCK_SUCK
                &&& final(self)@.x == old(self)@.x
                &&& final(self)@.y == old(self)@.y
                &&& final(self)@.dirn == old(self)@.dirn
            },
            a == Action::SUCK && !old(self)@.docked() ==> {
                &&& r == suck_reward(old(self)@)
                &&& final(self)@.x == old(self)@.x
                &&& final(self)@.y == old(self)@.y
                &&& final(self)@.dirn == old(self)@.dirn
                &&& final(self)@.cells.len() == old(self)@.cells.len()
                &&& forall|cx: int, cy: int|
                    old(self)@.in_bounds(cx, cy) ==> #[trigger] final(self)@.cell(cx, cy) == (
                    if in_suction_range(old(self)@, cx, cy) && old(self)@.cell(cx, cy) > 0 {
                        old(self)@.cell(cx, cy) - 1
                    } else {
                        old(self)@.cell(cx, cy) as int
                    })
            },
    {
        let xs: i32 = self.get_xsize();
        let ys: i32 = self.get_ysize();
        let (x0, y0, d0): (i32, i32, i32) = self.get_pose();
        match a {
            Action::L => {
                self.set_pose(x0, y0, (d0 + 3) % 4);
                self.add_total(COST_ROTATE);
                proof {
                    lemma_wf_same_cells(old(self)@, self@);
                }
                COST_ROTATE
            },
            Action::R => {
                self.set_pose(x0, y0, (d0 + 1) % 4);
                self.add_total(COST_ROTATE);
                proof {
                    lemma_wf_same_cells(old(self)@, self@);
                }
                COST_ROTATE
            },
            Action::FORWARD | Action::REVERSE => {
                let forward: bool = matches!(a, Action::FORWARD);
                let (dx, dy): (i32, i32) = if d0 == 0 {
                    (0, -1)
                } else if d0 == 1 {
                    (1, 0)
                } else if d0 == 2 {
                    (0, 1)
                } else {
                    (-1, 0)
                };
                let (nx, ny): (i32, i32) = if forward {
                    (x0 + dx, y0 + dy)
                } else {
                    (x0 - dx, y0 - dy)
                };
                let pen: i64 = self.movement_penalty(nx, ny, d0);
                if pen == 0 {
                    proof {
                        let nxi = nx as int;
                        let nyi = ny as int;
                        let di = d0 as int;
                        assert(!footprint_blocked(self@, nxi, nyi, di));
                        lemma_occ_covers_extremes(di);
                        let k1 = choose|k: int|
                            0 <= k < 14 && #[trigger] occ_offsets(di)[k] == (-1int, 0int);
                        assert(!blocks(self@, occ_cell(nxi, nyi, di, k1)));
                        let k2 = choose|k: int|
                            0 <= k < 14 && #[trigger] occ_offsets(di)[k] == (2int, 0int);
                        assert(!blocks(self@, occ_cell(nxi, nyi, di, k2)));
                        let k3 = choose|k: int|
                            0 <= k < 14 && #[trigger] occ_offsets(di)[k] == (0int, -1int);
                        assert(!blocks(self@, occ_cell(nxi, nyi, di, k3)));
                        let k4 = choose|k: int|
                            0 <= k < 14 && #[trigger] occ_offsets(di)[k] == (0int, 2int);
                        assert(!blocks(self@, occ_cell(nxi, nyi, di, k4)));
                        assert(1 <= nxi <= self@.xsize - 3);
                        assert(1 <= nyi <= self@.ysize - 3);
                    }
                    self.set_pose(nx, ny, d0);
                }
                let cost: i64 = if forward {
                    COST_FORWARD
                } else {
                    COST_REVERSE
                };
                let r: i64 = pen + cost;
                self.add_total(r);
                proof {
                    lemma_wf_same_cells(old(self)@, self@);
                }
                r
            },
            Action::SUCK => {
                if x0 == 1 && y0 == ys - 3 {
                    self.generate_level();
                    self.add_total(REWARD_DOCK_SUCK);
                    REWARD_DOCK_SUCK
                } else {
                    let sq: Vec<(i32, i32)> = suction_squares(x0, y0, d0);
                    proof {
                        lemma_suction_cells_distinct(x0 as int, y0 as int, d0 as int);
                    }
                    let mut cleaned: i64 = 0;
                    let mut k: usize = 0;
                    while k < 4
                        invariant
                            old(self).wf(),
                            self@.grid_wf(),
                            xs == self@.xsize,
                            ys == self@.ysize,
                            x0 == self@.x,
                            y0 == self@.y,
                            d0 == self@.dirn,
                            x0 == old(self)@.x,
                            y0 == old(self)@.y,
                            d0 == old(self)@.dirn,
                            self@.xsize == old(self)@.xsize,
                            self@.ysize == old(self)@.ysize,
                            self@.total == old(self)@.total,
                            self@.cells.len() == old(self)@.cells.len(),
                            sq@.len() == 4,
                            forall|j: int|
                                #![trigger sq@[j]]
                                0 <= j < 4 ==> (sq@[j].0 as int, sq@[j].1 as int) == suction_cell(
                                    old(self)@.x,
                                    old(self)@.y,
                                    old(self)@.dirn,
                                    j,
                                ),
                            forall|j1: int, j2: int|
                                0 <= j1 < 4 && 0 <= j2 < 4 && j1 != j2 ==> #[trigger] suction_cell(
                                    old(self)@.x,
                                    old(self)@.y,
                                    old(self)@.dirn,
                                    j1,
                                ) != #[trigger] suction_cell(
                                    old(self)@.x,
                                    old(self)@.y,
                                    old(self)@.dirn,
                                    j2,
                                ),
                            0 <= k <= 4,
                            0 <= cleaned <= k,
                            cleaned == cleaned_upto(old(self)@, k as int),
                            forall|cx: int, cy: int|
                                old(self)@.in_bounds(cx, cy) ==> #[trigger] self@.cell(cx, cy) == (
                                if in_suction_prefix(old(self)@, k as int, cx, cy) && old(
                                    self,
                                )@.cell(cx, cy) > 0 {
                                    old(self)@.cell(cx, cy) - 1
                                } else {
                                    old(self)@.cell(cx, cy) as int
                                }),
                            forall|i: int|
                                0 <= i < old(self)@.cells.len() ==> #[trigger] self@.cells[i]
                                    == old(self)@.cells[i] || (old(self)@.cells[i] > 0
                                    && self@.cells[i] == old(self)@.cells[i] - 1),
                        decreases 4 - k,
                    {
                        let (sx, sy): (i32, i32) = sq[k];
                        proof {
                            assert((sq@[k as int].0 as int, sq@[k as int].1 as int)
                                == suction_cell(
                                old(self)@.x,
                                old(self)@.y,
                                old(self)@.dirn,
                                k as int,
                            ));
                            assert(!in_suction_prefix(
                                old(self)@,
                                k as int,
                                sx as int,
                                sy as int,
                            )) by {
                                if in_suction_prefix(old(self)@, k as int, sx as int, sy as int) {
                                    let j = choose|j: int|
                                        0 <= j < k && #[trigger] suction_cell(
                                            old(self)@.x,
                                            old(self)@.y,
                                            old(self)@.dirn,
                                            j,
                                        ) == (sx as int, sy as int);
                                    assert(suction_cell(
                                        old(self)@.x,
                                        old(self)@.y,
                                        old(self)@.dirn,
                                        j,
                                    ) == suction_cell(
                                        old(self)@.x,
                                        old(self)@.y,
                                        old(self)@.dirn,
                                        k as int,
                                    ));
                                }
                            }
                        }
                        if sx >= 0 && sx < xs && sy >= 0 && sy < ys {
                            let c: i32 = self.cell_at(sx, sy);
                            if c > 0 {
                                self.set_cell(sx, sy, c - 1);
                                cleaned = cleaned + 1;
                            }
                        }
                        proof {
                            assert(cleaned_upto(old(self)@, k as int + 1) == cleaned_upto(
                                old(self)@,
                                k as int,
                            ) + (if suction_dirty(old(self)@, k as int) {
                                1int
                            } else {
                                0int
                            }));
                            assert forall|cx: int, cy: int|
                                old(self)@.in_bounds(cx, cy) implies #[trigger] self@.cell(cx, cy)
                                == (if in_suction_prefix(old(self)@, k as int + 1, cx, cy) && old(
                                self,
                            )@.cell(cx, cy) > 0 {
                                old(self)@.cell(cx, cy) - 1
                            } else {
                                old(self)@.cell(cx, cy) as int
                            }) by {
                                if in_suction_prefix(old(self)@, k as int + 1, cx, cy)
                                    && !in_suction_prefix(old(self)@, k as int, cx, cy) {
                                    assert(suction_cell(
                                        old(self)@.x,
                                        old(self)@.y,
                                        old(self)@.dirn,
                                        k as int,
                                    ) == (cx, cy));
                                }
                            }
                        }
                        k = k + 1;
                    }
                    let r: i64 = cleaned * REWARD_PER_DIRT + COST_SUCK;
                    proof {
                        assert forall|px: int, py: int|
                            0 <= px < 4 && self@.ysize - 4 <= py < self@.ysize implies #[trigger] self@.cell(
                            px,
                            py,
                        ) == CELL_PAD by {
                            assert(old(self)@.cell(px, py) == CELL_PAD);
                        }
                    }
                    self.add_total(r);
                    r
                }
            },
        }
    }
}

} // verus!
