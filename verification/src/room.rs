//! The room: an owned grid of cell values plus the robot's pose and its
//! cumulative reward.
//!
//! Cell encoding (matching the board's external numeric contract):
//! `> 0` dirt units, `0` empty, `-1` charging pad, `-2` obstacle,
//! `-3` hazard.
//!
//! All rewards are carried as `i64` counts of hundredths of a reward
//! unit, so reward arithmetic is exact integer arithmetic.

use vstd::prelude::*;

verus! {

/// Cell value of the charging pad.
pub const CELL_PAD: i32 = -1;

/// Cell value of an obstacle.
pub const CELL_OBSTACLE: i32 = -2;

/// Cell value of a hazard.
pub const CELL_HAZARD: i32 = -3;

/// Mathematical model of a [`Room`]: the grid contents in row-major
/// order, the grid dimensions, the robot pose, and the cumulative
/// reward in hundredths.
pub struct RoomView {
    pub cells: Seq<i32>,
    pub xsize: int,
    pub ysize: int,
    pub x: int,
    pub y: int,
    pub dirn: int,
    pub total: int,
}

impl RoomView {
    /// True when `(x, y)` lies on the grid.
    pub open spec fn in_bounds(self, x: int, y: int) -> bool {
        0 <= x < self.xsize && 0 <= y < self.ysize
    }

    /// The cell value at `(x, y)`, row-major.
    pub open spec fn cell(self, x: int, y: int) -> i32 {
        self.cells[y * self.xsize + x]
    }

    /// The grid has workable dimensions and the cell storage matches them.
    pub open spec fn grid_wf(self) -> bool {
        &&& 4 <= self.xsize <= i32::MAX
        &&& 4 <= self.ysize <= i32::MAX
        &&& self.xsize * self.ysize <= i32::MAX
        &&& self.cells.len() == self.xsize * self.ysize
    }

    /// The fixed 4x4 charging-pad rectangle at the bottom-left region
    /// `(0..4, ysize-4..ysize)` holds exactly the pad value.
    pub open spec fn pad_ok(self) -> bool {
        forall|px: int, py: int|
            0 <= px < 4 && self.ysize - 4 <= py < self.ysize ==> #[trigger] self.cell(px, py)
                == CELL_PAD
    }

    /// Every cell holds a value of the cell encoding.
    pub open spec fn cells_ok(self) -> bool {
        forall|i: int| 0 <= i < self.cells.len() ==> #[trigger] self.cells[i] >= CELL_HAZARD
    }

    /// The robot's reference corner keeps its full 4x4 footprint
    /// region `(x-1..x+3, y-1..y+3)` on the grid.
    pub open spec fn pose_ok(self) -> bool {
        &&& 1 <= self.x <= self.xsize - 3
        &&& 1 <= self.y <= self.ysize - 3
        &&& 0 <= self.dirn < 4
    }

    /// Full well-formedness of a room state.
    pub open spec fn wf(self) -> bool {
        &&& self.grid_wf()
        &&& self.cells_ok()
        &&& self.pad_ok()
        &&& self.pose_ok()
    }

    /// The canonical dock pose: the robot centered on the charging pad.
    pub open spec fn docked(self) -> bool {
        self.x == 1 && self.y == self.ysize - 3
    }
}

/// Distinct in-bounds coordinates have distinct row-major indices.
pub proof fn lemma_index_injective(xsize: int, x1: int, y1: int, x2: int, y2: int)
    requires
        0 <= x1 < xsize,
        0 <= x2 < xsize,
        !(x1 == x2 && y1 == y2),
    ensures
        y1 * xsize + x1 != y2 * xsize + x2,
{
    assert(y1 * xsize + x1 != y2 * xsize + x2) by (nonlinear_arith)
        requires
            0 <= x1 < xsize,
            0 <= x2 < xsize,
            !(x1 == x2 && y1 == y2),
    ;
}

/// A row-major index of an in-bounds coordinate lies inside the cell
/// storage.
pub proof fn lemma_index_bounds(xsize: int, ysize: int, x: int, y: int)
    requires
        0 <= x < xsize,
        0 <= y < ysize,
    ensures
        0 <= y * xsize + x < xsize * ysize,
{
    assert(0 <= y * xsize + x < xsize * ysize) by (nonlinear_arith)
        requires
            0 <= x < xsize,
            0 <= y < ysize,
    ;
}

/// Both states have the same grid dimensions, robot pose, and
/// cumulative reward; only the cell contents may differ.
pub open spec fn same_frame(a: RoomView, b: RoomView) -> bool {
    &&& b.xsize == a.xsize
    &&& b.ysize == a.ysize
    &&& b.x == a.x
    &&& b.y == a.y
    &&& b.dirn == a.dirn
    &&& b.total == a.total
}

/// The simulated room: board, robot pose, and cumulative reward.
pub struct Room {
    pub(crate) cells: Vec<i32>,
    pub(crate) xsize: i32,
    pub(crate) ysize: i32,
    pub(crate) x: i32,
    pub(crate) y: i32,
    pub(crate) dirn: i32,
    pub(crate) total: i64,
}

impl View for Room {
    type V = RoomView;

    closed spec fn view(&self) -> RoomView {
        RoomView {
            cells: self.cells@,
            xsize: self.xsize as int,
            ysize: self.ysize as int,
            x: self.x as int,
            y: self.y as int,
            dirn: self.dirn as int,
            total: self.total as int,
        }
    }
}

impl Room {
    /// Well-formedness, stated over the mathematical view.
    pub open spec fn wf(&self) -> bool {
        self@.wf()
    }

    /// Builds a room directly from explicit parts: grid dimensions,
    /// row-major cell values, and a robot pose.  The cumulative reward
    /// starts at zero.  This is the deterministic way to reach a known
    /// room state; [`Room::new`] builds a pseudo-random one.
    pub fn from_layout(xsize: i32, ysize: i32, cells: Vec<i32>, x: i32, y: i32, dirn: i32) -> (room:
        Room)
        requires
            (RoomView {
                cells: cells@,
                xsize: xsize as int,
                ysize: ysize as int,
                x: x as int,
                y: y as int,
                dirn: dirn as int,
                total: 0,
            }).wf(),
        ensures
            room@ == (RoomView {
                cells: cells@,
                xsize: xsize as int,
                ysize: ysize as int,
                x: x as int,
                y: y as int,
                dirn: dirn as int,
                total: 0,
            }),
            room.wf(),
    {
        Room { cells, xsize, ysize, x, y, dirn, total: 0 }
    }

    /// Assembles a room from raw parts without further checks; the
    /// callers establish whatever well-formedness they need.
    pub(crate) fn raw(xsize: i32, ysize: i32, cells: Vec<i32>, x: i32, y: i32, dirn: i32) -> (room:
        Room)
        ensures
            room@ == (RoomView {
                cells: cells@,
                xsize: xsize as int,
                ysize: ysize as int,
                x: x as int,
                y: y as int,
                dirn: dirn as int,
                total: 0,
            }),
    {
        Room { cells, xsize, ysize, x, y, dirn, total: 0 }
    }

    /// Resets every cell to the empty value.
    pub(crate) fn reset_cells_zero(&mut self)
        requires
            old(self)@.grid_wf(),
        ensures
            same_frame(old(self)@, final(self)@),
            final(self)@.cells.len() == old(self)@.cells.len(),
            forall|i: int| 0 <= i < final(self)@.cells.len() ==> final(self)@.cells[i] == 0,
    {
        let n: usize = self.cells.len();
        let mut fresh: Vec<i32> = Vec::new();
        while fresh.len() < n
            invariant
                fresh@.len() <= n,
                forall|i: int| 0 <= i < fresh@.len() ==> fresh@[i] == 0,
            decreases n - fresh@.len(),
        {
            fresh.push(0);
        }
        self.cells = fresh;
    }

    /// The row-major cell index of an in-bounds coordinate.
    pub(crate) fn cell_index(&self, x: i32, y: i32) -> (i: usize)
        requires
            self@.grid_wf(),
            self@.in_bounds(x as int, y as int),
        ensures
            i == y * self@.xsize + x,
            i < self@.cells.len(),
    {
        proof {
            lemma_index_bounds(self@.xsize, self@.ysize, x as int, y as int);
        }
        (y * self.xsize + x) as usize
    }

    /// Reads the cell value at an in-bounds coordinate.
    pub fn cell_at(&self, x: i32, y: i32) -> (c: i32)
        requires
            self@.grid_wf(),
            self@.in_bounds(x as int, y as int),
        ensures
            c == self@.cell(x as int, y as int),
    {
        let i: usize = self.cell_index(x, y);
        self.cells[i]
    }

    /// Writes one cell, leaving every other cell and all other fields
    /// unchanged.
    pub(crate) fn set_cell(&mut self, x: i32, y: i32, v: i32)
        requires
            old(self)@.grid_wf(),
            old(self)@.in_bounds(x as int, y as int),
        ensures
            final(self)@.cells.len() == old(self)@.cells.len(),
            0 <= y * old(self)@.xsize + x < old(self)@.cells.len(),
            final(self)@.cells == old(self)@.cells.update(y * old(self)@.xsize + x, v),
            final(self)@.cell(x as int, y as int) == v,
            forall|x2: int, y2: int|
                old(self)@.in_bounds(x2, y2) && !(x2 == x as int && y2 == y as int)
                    ==> #[trigger] final(self)@.cell(x2, y2) == old(self)@.cell(x2, y2),
            final(self)@.xsize == old(self)@.xsize,
            final(self)@.ysize == old(self)@.ysize,
            final(self)@.x == old(self)@.x,
            final(self)@.y == old(self)@.y,
            final(self)@.dirn == old(self)@.dirn,
            final(self)@.total == old(self)@.total,
    {
        let i: usize = self.cell_index(x, y);
        self.cells[i] = v;
        proof {
            assert forall|x2: int, y2: int|
                old(self)@.in_bounds(x2, y2) && !(x2 == x as int && y2 == y as int)
                    implies #[trigger] self@.cell(x2, y2) == old(self)@.cell(x2, y2) by {
                lemma_index_bounds(self@.xsize, self@.ysize, x2, y2);
                lemma_index_injective(self@.xsize, x2, y2, x as int, y as int);
            }
        }
    }

    /// Overwrites the robot pose, leaving everything else unchanged.
    pub(crate) fn set_pose(&mut self, x: i32, y: i32, dirn: i32)
        ensures
            final(self)@ == (RoomView {
                x: x as int,
                y: y as int,
                dirn: dirn as int,
                ..old(self)@
            }),
            forall|cx: int, cy: int| #[trigger]
                final(self)@.cell(cx, cy) == old(self)@.cell(cx, cy),
    {
        self.x = x;
        self.y = y;
        self.dirn = dirn;
    }

    /// Adds a step reward to the cumulative total.
    pub(crate) fn add_total(&mut self, d: i64)
        requires
            i64::MIN <= old(self)@.total + d <= i64::MAX,
        ensures
            final(self)@ == (RoomView { total: old(self)@.total + d, ..old(self)@ }),
            forall|cx: int, cy: int| #[trigger]
                final(self)@.cell(cx, cy) == old(self)@.cell(cx, cy),
    {
        self.total = self.total + d;
    }

    /// The robot pose `(x, y, heading)`, for rendering and for
    /// suction-range highlighting.
    pub fn get_pose(&self) -> (pose: (i32, i32, i32))
        ensures
            pose.0 == self@.x,
            pose.1 == self@.y,
            pose.2 == self@.dirn,
    {
        (self.x, self.y, self.dirn)
    }

    /// The grid width.
    pub fn get_xsize(&self) -> (s: i32)
        ensures
            s == self@.xsize,
    {
        self.xsize
    }

    /// The grid height.
    pub fn get_ysize(&self) -> (s: i32)
        ensures
            s == self@.ysize,
    {
        self.ysize
    }

    /// The cumulative reward since construction, in hundredths of a
    /// reward unit.
    pub fn get_total_reward(&self) -> (r: i64)
        ensures
            r == self@.total,
    {
        self.total
    }

    /// A read-only copy of the cell values, row-major.
    pub fn get_board_snapshot(&self) -> (cells: Vec<i32>)
        ensures
            cells@ == self@.cells,
    {
        let mut out: Vec<i32> = Vec::new();
        let n: usize = self.cells.len();
        let mut i: usize = 0;
        while i < n
            invariant
                i <= n,
                n == self@.cells.len(),
                out@ == self@.cells.subrange(0, i as int),
            decreases n - i,
        {
            out.push(self.cells[i]);
            proof {
                assert(out@ =~= self@.cells.subrange(0, i + 1));
            }
            i = i + 1;
        }
        proof {
            assert(out@ =~= self@.cells);
        }
        out
    }
}

/// A state with the same grid as a well-formed state and a pose that
/// keeps its footprint region on the grid is well-formed again.
pub proof fn lemma_wf_same_cells(a: RoomView, b: RoomView)
    requires
        a.wf(),
        b.cells == a.cells,
        b.xsize == a.xsize,
        b.ysize == a.ysize,
        1 <= b.x <= b.xsize - 3,
        1 <= b.y <= b.ysize - 3,
        0 <= b.dirn < 4,
    ensures
        b.wf(),
{
    assert forall|px: int, py: int|
        0 <= px < 4 && b.ysize - 4 <= py < b.ysize implies #[trigger] b.cell(px, py)
        == CELL_PAD by {
        assert(a.cell(px, py) == CELL_PAD);
    }
}

/// The charging pad of a well-formed room holds exactly the pad value:
/// every cell of the 4x4 rectangle at `(0..4, ysize-4..ysize)` is `-1`,
/// in every reachable room state.
pub proof fn lemma_pad_always_charging(v: RoomView)
    requires
        v.wf(),
    ensures
        forall|px: int, py: int|
            0 <= px < 4 && v.ysize - 4 <= py < v.ysize ==> #[trigger] v.cell(px, py) == CELL_PAD,
{
}

} // verus!
