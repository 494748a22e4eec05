//! The state encoder: projects board and robot state into the fixed
//! 403-entry numeric vector consumed by external learners.
//!
//! Entries 0..400 are a 20x20 window of cell values centered on the
//! robot, row-major; a window coordinate outside the grid yields the
//! obstacle sentinel.  Entry 400 is the robot's x offset from the
//! dock, entry 401 its y offset, entry 402 its heading code.

use vstd::prelude::*;

use crate::room::{Room, RoomView, CELL_OBSTACLE};

verus! {

/// Length of the state vector: the external data contract.
pub const SIZE_STATE: usize = 403;

/// Number of actions an external policy chooses between.
pub const SIZE_ACTION: usize = 5;

/// Entry `i` of the state vector of room state `v`.
pub open spec fn state_entry(v: RoomView, i: int) -> int {
    if i < 400 {
        let wx = v.x + (i % 20) - 9;
        let wy = v.y + (i / 20) - 9;
        if v.in_bounds(wx, wy) {
            v.cell(wx, wy) as int
        } else {
            CELL_OBSTACLE as int
        }
    } else if i == 400 {
        v.x - 1
    } else if i == 401 {
        v.ysize - v.y - 3
    } else {
        v.dirn
    }
}

impl Room {
    /// Encodes the current state as the fixed-length numeric vector:
    /// always exactly `SIZE_STATE` entries, whatever the grid size and
    /// the robot position, even when the sampling window extends
    /// outside the grid.
    pub fn get_nn_input(&self) -> (out: Vec<i32>)
        requires
            self.wf(),
        ensures
            out@.len() == SIZE_STATE,
            forall|i: int| 0 <= i < 403 ==> #[trigger] out@[i] == state_entry(self@, i),
    {
        let xs: i32 = self.get_xsize();
        let ys: i32 = self.get_ysize();
        let (x0, y0, d0): (i32, i32, i32) = self.get_pose();
        proof {
            assert(4 * self@.xsize <= self@.xsize * self@.ysize) by (nonlinear_arith)
                requires
                    0 <= self@.xsize,
                    4 <= self@.ysize,
            ;
            assert(4 * self@.ysize <= self@.xsize * self@.ysize) by (nonlinear_arith)
                requires
                    0 <= self@.ysize,
                    4 <= self@.xsize,
            ;
        }
        let mut out: Vec<i32> = Vec::new();
        let mut i: usize = 0;
        while i < 400
            invariant
                self.wf(),
                xs == self@.xsize,
                ys == self@.ysize,
                x0 == self@.x,
                y0 == self@.y,
                d0 == self@.dirn,
                4 * xs <= i32::MAX,
                4 * ys <= i32::MAX,
                i <= 400,
                out@.len() == i,
                forall|j: int| 0 <= j < i ==> #[trigger] out@[j] == state_entry(self@, j),
            decreases 400 - i,
        {
            let wx: i32 = x0 + (i as i32) % 20 - 9;
            let wy: i32 = y0 + (i as i32) / 20 - 9;
            let val: i32 = if wx >= 0 && wx < xs && wy >= 0 && wy < ys {
                self.cell_at(wx, wy)
            } else {
                CELL_OBSTACLE
            };
            out.push(val);
            i = i + 1;
        }
        out.push(x0 - 1);
        out.push(ys - y0 - 3);
        out.push(d0);
        out
    }
}

} // verus!
