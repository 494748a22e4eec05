//! Procedural level generation: stamping the charging pad, placing
//! rectangular hazards, growing irregular obstacle blobs, and
//! scattering dirt.
//!
//! Randomness enters only through the trusted `rng` module; every
//! placement is verified for every value the generator can hand back.
//! The deterministic cores (`place_hazard_at`, `place_dirt_at`,
//! `grow_ray`) carry exact contracts.

use vstd::prelude::*;

use crate::rng::{fresh_rng, rng_range};
use crate::room::{
    lemma_index_bounds, same_frame, Room, RoomView, CELL_HAZARD, CELL_OBSTACLE, CELL_PAD,
};

verus! {

/// The exclusive x limit of a hazard rectangle anchored at `xmin`
/// with width `w`, clipped to the grid.
pub open spec fn hazard_xmax(v: RoomView, xmin: int, w: int) -> int {
    if xmin + w < v.xsize {
        xmin + w
    } else {
        v.xsize
    }
}

/// The exclusive y limit of a hazard rectangle anchored at `ymin`
/// with height `h`, clipped to the grid.
pub open spec fn hazard_ymax(v: RoomView, ymin: int, h: int) -> int {
    if ymin + h < v.ysize {
        ymin + h
    } else {
        v.ysize
    }
}

/// A hazard rectangle is discarded outright when its clipped bounding
/// box comes too close to the charging pad.
pub open spec fn hazard_skip(v: RoomView, xmin: int, ymin: int, w: int, h: int) -> bool {
    xmin < 8 && hazard_ymax(v, ymin, h) > v.ysize - 8
}

impl Room {
    /// Stamps a rectangular hazard anchored at `(xmin, ymin)` of size
    /// `w x h`, clipped to the grid.  A rectangle whose clipped box
    /// reaches the charging-pad exclusion zone is skipped whole;
    /// otherwise every cell of the rectangle becomes a hazard,
    /// overwriting any prior content.
    pub fn place_hazard_at(&mut self, xmin: i32, ymin: i32, w: i32, h: i32)
        requires
            old(self)@.grid_wf(),
            0 <= xmin < old(self)@.xsize,
            0 <= ymin < old(self)@.ysize,
            0 <= w,
            0 <= h,
            xmin + w <= i32::MAX,
            ymin + h <= i32::MAX,
        ensures
            same_frame(old(self)@, final(self)@),
            final(self)@.cells.len() == old(self)@.cells.len(),
            hazard_skip(old(self)@, xmin as int, ymin as int, w as int, h as int) ==> final(self)@.cells == old(self)@.cells,
            !hazard_skip(old(self)@, xmin as int, ymin as int, w as int, h as int)
                ==> forall|cx: int, cy: int|
                old(self)@.in_bounds(cx, cy) ==> #[trigger] final(self)@.cell(cx, cy) == (if xmin
                    <= cx < hazard_xmax(old(self)@, xmin as int, w as int) && ymin <= cy
                    < hazard_ymax(old(self)@, ymin as int, h as int) {
                    CELL_HAZARD
                } else {
                    old(self)@.cell(cx, cy)
                }),
            forall|i: int|
                0 <= i < old(self)@.cells.len() ==> #[trigger] final(self)@.cells[i] == old(self)@.cells[i] || final(self)@.cells[i] == CELL_HAZARD,
            old(self)@.pad_ok() ==> final(self)@.pad_ok(),
    {
        let xs: i32 = self.get_xsize();
        let ys: i32 = self.get_ysize();
        let xmax: i32 = if xmin + w < xs {
            xmin + w
        } else {
            xs
        };
        let ymax: i32 = if ymin + h < ys {
            ymin + h
        } else {
            ys
        };
        if xmin < 8 && ymax > ys - 8 {
            return;
        }
        let mut x: i32 = xmin;
        while x < xmax
            invariant
                self@.grid_wf(),
                same_frame(old(self)@, self@),
                self@.cells.len() == old(self)@.cells.len(),
                old(self)@.grid_wf(),
                0 <= xmin <= x <= xmax,
                xmax == hazard_xmax(old(self)@, xmin as int, w as int),
                ymax == hazard_ymax(old(self)@, ymin as int, h as int),
                0 <= ymin <= ymax,
                ymax <= old(self)@.ysize,
                forall|cx: int, cy: int|
                    old(self)@.in_bounds(cx, cy) ==> #[trigger] self@.cell(cx, cy) == (if xmin <= cx
                        < x && ymin <= cy < ymax {
                        CELL_HAZARD
                    } else {
                        old(self)@.cell(cx, cy)
                    }),
                forall|i: int|
                    0 <= i < old(self)@.cells.len() ==> #[trigger] self@.cells[i] == old(self)@.cells[i] || self@.cells[i] == CELL_HAZARD,
            decreases xmax - x,
        {
            let mut y: i32 = ymin;
            while y < ymax
                invariant
                    self@.grid_wf(),
                    same_frame(old(self)@, self@),
                    self@.cells.len() == old(self)@.cells.len(),
                    old(self)@.grid_wf(),
                    0 <= xmin <= x < xmax,
                    xmax == hazard_xmax(old(self)@, xmin as int, w as int),
                    ymax == hazard_ymax(old(self)@, ymin as int, h as int),
                    0 <= ymin <= y <= ymax,
                    ymax <= old(self)@.ysize,
                    forall|cx: int, cy: int|
                        old(self)@.in_bounds(cx, cy) ==> #[trigger] self@.cell(cx, cy) == (if (xmin
                            <= cx < x && ymin <= cy < ymax) || (cx == x && ymin <= cy < y) {
                            CELL_HAZARD
                        } else {
                            old(self)@.cell(cx, cy)
                        }),
                    forall|i: int|
                        0 <= i < old(self)@.cells.len() ==> #[trigger] self@.cells[i] == old(self)@.cells[i] || self@.cells[i] == CELL_HAZARD,
                decreases ymax - y,
            {
                self.set_cell(x, y, CELL_HAZARD);
                y = y + 1;
            }
            x = x + 1;
        }
        proof {
            if old(self)@.pad_ok() {
                assert forall|px: int, py: int|
                    0 <= px < 4 && self@.ysize - 4 <= py < self@.ysize implies #[trigger] self@.cell(
                    px,
                    py,
                ) == CELL_PAD by {
                    if xmin <= px < hazard_xmax(old(self)@, xmin as int, w as int) && ymin <= py
                        < hazard_ymax(old(self)@, ymin as int, h as int) {
                        assert(hazard_skip(old(self)@, xmin as int, ymin as int, w as int, h as int));
                    }
                }
            }
        }
    }

    /// Adds one unit of dirt at `(x, y)` when the cell is empty or
    /// already dirty; pad, obstacle, and hazard cells are left alone.
    pub fn place_dirt_at(&mut self, x: i32, y: i32)
        requires
            old(self)@.grid_wf(),
            old(self)@.in_bounds(x as int, y as int),
            old(self)@.cell(x as int, y as int) < i32::MAX,
        ensures
            same_frame(old(self)@, final(self)@),
            final(self)@.cells.len() == old(self)@.cells.len(),
            old(self)@.cell(x as int, y as int) >= 0 ==> final(self)@.cell(x as int, y as int)
                == old(self)@.cell(x as int, y as int) + 1,
            old(self)@.cell(x as int, y as int) < 0 ==> final(self)@.cells == old(self)@.cells,
            forall|cx: int, cy: int|
                old(self)@.in_bounds(cx, cy) && !(cx == x as int && cy == y as int)
                    ==> #[trigger] final(self)@.cell(cx, cy) == old(self)@.cell(cx, cy),
            forall|i: int|
                0 <= i < old(self)@.cells.len() ==> #[trigger] final(self)@.cells[i] == old(self)@.cells[i] || (old(self)@.cells[i] >= 0 && final(self)@.cells[i] == old(self)@.cells[i] + 1),
    {
        let c: i32 = self.cell_at(x, y);
        if c >= 0 {
            self.set_cell(x, y, c + 1);
        }
    }

    /// Adds one unit of dirt at a uniformly random cell when that cell
    /// is empty or already dirty.
    pub(crate) fn place_dirt(&mut self, rng: &mut rand::rngs::ThreadRng)
        requires
            old(self)@.grid_wf(),
            forall|i: int|
                0 <= i < old(self)@.cells.len() ==> #[trigger] old(self)@.cells[i] < i32::MAX,
        ensures
            same_frame(old(self)@, final(self)@),
            final(self)@.cells.len() == old(self)@.cells.len(),
            forall|i: int|
                0 <= i < old(self)@.cells.len() ==> #[trigger] final(self)@.cells[i] == old(self)@.cells[i] || (old(self)@.cells[i] >= 0 && final(self)@.cells[i] == old(self)@.cells[i] + 1),
    {
        let xs: i32 = self.get_xsize();
        let ys: i32 = self.get_ysize();
        let x: i32 = rng_range(rng, 0, xs);
        let y: i32 = rng_range(rng, 0, ys);
        proof {
            lemma_index_bounds(self@.xsize, self@.ysize, x as int, y as int);
        }
        self.place_dirt_at(x, y);
    }

    /// Stamps a hazard rectangle of size `w x h` at a uniformly random
    /// anchor, clipped to the grid and skipped near the charging pad.
    pub(crate) fn place_hazard(&mut self, w: i32, h: i32, rng: &mut rand::rngs::ThreadRng)
        requires
            old(self)@.grid_wf(),
            0 <= w,
            0 <= h,
            old(self)@.xsize + w <= i32::MAX,
            old(self)@.ysize + h <= i32::MAX,
        ensures
            same_frame(old(self)@, final(self)@),
            final(self)@.cells.len() == old(self)@.cells.len(),
            forall|i: int|
                0 <= i < old(self)@.cells.len() ==> #[trigger] final(self)@.cells[i] == old(self)@.cells[i] || final(self)@.cells[i] == CELL_HAZARD,
            old(self)@.pad_ok() ==> final(self)@.pad_ok(),
    {
        let xs: i32 = self.get_xsize();
        let ys: i32 = self.get_ysize();
        let xmin: i32 = rng_range(rng, 0, xs);
        let ymin: i32 = rng_range(rng, 0, ys);
        self.place_hazard_at(xmin, ymin, w, h);
    }
}

/// The `(dx, dy)` step of a growth direction code: `0` up, `1` right,
/// `2` down, `3` left.
pub open spec fn growth_delta(g: int) -> (int, int) {
    if g == 0 {
        (0, -1)
    } else if g == 1 {
        (1, 0)
    } else if g == 2 {
        (0, 1)
    } else {
        (-1, 0)
    }
}

/// How far a growth ray at `(x, y)` can still travel before leaving
/// the grid; used as the termination measure of [`ray_target`].
pub open spec fn ray_measure(v: RoomView, x: int, y: int, g: int) -> int {
    if g == 0 {
        y
    } else if g == 1 {
        v.xsize - x
    } else if g == 2 {
        v.ysize - y
    } else {
        x
    }
}

/// The cell an obstacle growth ray claims, if any: starting beside
/// `(x, y)` and sliding one cell at a time in direction `g`, the ray
/// claims the first empty cell it meets; it passes through existing
/// obstacle cells and gives up on leaving the grid, on entering the
/// charging-pad exclusion zone, or on meeting any other content.
pub open spec fn ray_target(v: RoomView, x: int, y: int, g: int) -> Option<(int, int)>
    decreases ray_measure(v, x, y, g),
{
    if !(0 <= g < 4) {
        None
    } else {
        let nx = x + growth_delta(g).0;
        let ny = y + growth_delta(g).1;
        if !v.in_bounds(nx, ny) {
            None
        } else if nx < 8 && ny > v.ysize - 8 {
            None
        } else if v.cell(nx, ny) == 0 {
            Some((nx, ny))
        } else if v.cell(nx, ny) == CELL_OBSTACLE {
            ray_target(v, nx, ny, g)
        } else {
            None
        }
    }
}

impl Room {
    /// Slides an obstacle growth ray from `(startx, starty)` in
    /// direction `g` and claims the cell [`ray_target`] designates,
    /// returning it; claims nothing when the ray gives up.
    pub fn grow_ray(&mut self, startx: i32, starty: i32, g: i32) -> (claimed: Option<(i32, i32)>)
        requires
            old(self)@.grid_wf(),
            old(self)@.in_bounds(startx as int, starty as int),
            0 <= g < 4,
        ensures
            same_frame(old(self)@, final(self)@),
            final(self)@.cells.len() == old(self)@.cells.len(),
            (match ray_target(old(self)@, startx as int, starty as int, g as int) {
                Option::None => claimed is None && final(self)@.cells == old(self)@.cells,
                Option::Some(c) => {
                    &&& claimed matches Option::Some(cl) && cl.0 == c.0 && cl.1 == c.1
                    &&& old(self)@.in_bounds(c.0, c.1)
                    &&& old(self)@.cell(c.0, c.1) == 0
                    &&& 0 <= c.1 * old(self)@.xsize + c.0 < old(self)@.cells.len()
                    &&& final(self)@.cells == old(self)@.cells.update(
                        c.1 * old(self)@.xsize + c.0,
                        CELL_OBSTACLE,
                    )
                },
            }),
    {
        let xs: i32 = self.get_xsize();
        let ys: i32 = self.get_ysize();
        let mut cx: i32 = startx;
        let mut cy: i32 = starty;
        loop
            invariant
                self@ == old(self)@,
                self@.grid_wf(),
                xs == self@.xsize,
                ys == self@.ysize,
                0 <= g < 4,
                self@.in_bounds(cx as int, cy as int),
                ray_target(old(self)@, startx as int, starty as int, g as int) == ray_target(
                    old(self)@,
                    cx as int,
                    cy as int,
                    g as int,
                ),
            decreases ray_measure(self@, cx as int, cy as int, g as int),
        {
            let (dx, dy): (i32, i32) = if g == 0 {
                (0, -1)
            } else if g == 1 {
                (1, 0)
            } else if g == 2 {
                (0, 1)
            } else {
                (-1, 0)
            };
            let nx: i32 = cx + dx;
            let ny: i32 = cy + dy;
            if nx < 0 || nx >= xs || ny < 0 || ny >= ys {
                return None;
            }
            if nx < 8 && ny > ys - 8 {
                return None;
            }
            let c: i32 = self.cell_at(nx, ny);
            if c == 0 {
                self.set_cell(nx, ny, CELL_OBSTACLE);
                return Some((nx, ny));
            } else if c != CELL_OBSTACLE {
                return None;
            }
            cx = nx;
            cy = ny;
        }
    }

    /// Grows an irregular obstacle blob of the given size from a
    /// random seed cell: the seed must be empty or the whole placement
    /// is aborted; each growth step slides a ray out of the blob's
    /// bounding box in a random direction.  Every cell the blob claims
    /// was empty before.
    pub(crate) fn place_obstacle(&mut self, size: i32, rng: &mut rand::rngs::ThreadRng)
        requires
            old(self)@.grid_wf(),
            0 <= size,
        ensures
            same_frame(old(self)@, final(self)@),
            final(self)@.cells.len() == old(self)@.cells.len(),
            forall|i: int|
                0 <= i < old(self)@.cells.len() ==> #[trigger] final(self)@.cells[i] == old(self)@.cells[i] || (old(self)@.cells[i] == 0 && final(self)@.cells[i] == CELL_OBSTACLE),
    {
        let xs: i32 = self.get_xsize();
        let ys: i32 = self.get_ysize();
        let xseed: i32 = rng_range(rng, 0, xs);
        let yseed: i32 = rng_range(rng, 0, ys);
        let mut xmin: i32 = xseed;
        let mut xmax: i32 = xseed;
        let mut ymin: i32 = yseed;
        let mut ymax: i32 = yseed;
        if self.cell_at(xseed, yseed) == 0 {
            self.set_cell(xseed, yseed, CELL_OBSTACLE);
        } else {
            return;
        }
        let mut k: i32 = 0;
        while k < size
            invariant
                self@.grid_wf(),
                same_frame(old(self)@, self@),
                self@.cells.len() == old(self)@.cells.len(),
                old(self)@.grid_wf(),
                xs == self@.xsize,
                ys == self@.ysize,
                0 <= k <= size,
                0 <= xmin <= xseed <= xmax < xs,
                0 <= ymin <= yseed <= ymax < ys,
                forall|i: int|
                    0 <= i < old(self)@.cells.len() ==> #[trigger] self@.cells[i] == old(self)@.cells[i] || (old(self)@.cells[i] == 0 && self@.cells[i] == CELL_OBSTACLE),
            decreases size - k,
        {
            let g: i32 = rng_range(rng, 0, 4);
            let startx: i32;
            let starty: i32;
            if g % 2 == 0 {
                startx = rng_range(rng, xmin, xmax + 1);
                starty = yseed;
            } else {
                startx = xseed;
                starty = rng_range(rng, ymin, ymax + 1);
            }
            let ghost pre = self@;
            match self.grow_ray(startx, starty, g) {
                Option::Some((cx, cy)) => {
                    proof {
                        assert(ray_target(pre, startx as int, starty as int, g as int) is Some);
                    }
                    if cx < xmin {
                        xmin = cx;
                    }
                    if cx > xmax {
                        xmax = cx;
                    }
                    if cy < ymin {
                        ymin = cy;
                    }
                    if cy > ymax {
                        ymax = cy;
                    }
                },
                Option::None => {},
            }
            k = k + 1;
        }
    }

    /// Builds a fresh level in place: zeroes the grid, stamps the
    /// charging pad, then places hazards, obstacles, and dirt in
    /// counts proportional to the grid area.  The robot pose and the
    /// cumulative reward are untouched.
    pub(crate) fn generate_level(&mut self)
        requires
            old(self)@.grid_wf(),
        ensures
            same_frame(old(self)@, final(self)@),
            final(self)@.cells.len() == old(self)@.cells.len(),
            final(self)@.cells_ok(),
            final(self)@.pad_ok(),
    {
        let mut rng = fresh_rng();
        self.reset_cells_zero();
        let xs: i32 = self.get_xsize();
        let ys: i32 = self.get_ysize();
        proof {
            assert(4 * self@.xsize <= self@.xsize * self@.ysize) by (nonlinear_arith)
                requires
                    0 <= self@.xsize,
                    4 <= self@.ysize,
            ;
            assert(4 * self@.ysize <= self@.xsize * self@.ysize) by (nonlinear_arith)
                requires
                    0 <= self@.ysize,
                    4 <= self@.xsize,
            ;
        }
        // Charging pad
        let mut px: i32 = 0;
        while px < 4
            invariant
                self@.grid_wf(),
                same_frame(old(self)@, self@),
                self@.cells.len() == old(self)@.cells.len(),
                xs == self@.xsize,
                ys == self@.ysize,
                0 <= px <= 4,
                forall|i: int|
                    0 <= i < self@.cells.len() ==> CELL_PAD <= #[trigger] self@.cells[i] <= 0,
                forall|qx: int, qy: int|
                    0 <= qx < px && ys - 4 <= qy < ys ==> #[trigger] self@.cell(qx, qy) == CELL_PAD,
            decreases 4 - px,
        {
            let mut py: i32 = 0;
            while py < 4
                invariant
                    self@.grid_wf(),
                    same_frame(old(self)@, self@),
                    self@.cells.len() == old(self)@.cells.len(),
                    xs == self@.xsize,
                    ys == self@.ysize,
                    0 <= px < 4,
                    0 <= py <= 4,
                    forall|i: int|
                        0 <= i < self@.cells.len() ==> CELL_PAD <= #[trigger] self@.cells[i] <= 0,
                    forall|qx: int, qy: int|
                        0 <= qx < px && ys - 4 <= qy < ys ==> #[trigger] self@.cell(qx, qy)
                            == CELL_PAD,
                    forall|qy: int|
                        ys - 4 <= qy < ys - 4 + py ==> #[trigger] self@.cell(px as int, qy)
                            == CELL_PAD,
                decreases 4 - py,
            {
                self.set_cell(px, ys - 4 + py, CELL_PAD);
                py = py + 1;
            }
            px = px + 1;
        }
        assert(self@.pad_ok());
        // Hazards
        let area: i32 = xs * ys;
        let nhaz: i32 = area / 800;
        let mut t: i32 = 0;
        while t < nhaz
            invariant
                self@.grid_wf(),
                same_frame(old(self)@, self@),
                self@.cells.len() == old(self)@.cells.len(),
                xs == self@.xsize,
                ys == self@.ysize,
                xs + 12 <= i32::MAX,
                ys + 12 <= i32::MAX,
                self@.pad_ok(),
                forall|i: int|
                    0 <= i < self@.cells.len() ==> CELL_HAZARD <= #[trigger] self@.cells[i] <= 0,
            decreases nhaz - t,
        {
            let w: i32 = rng_range(&mut rng, 4, 12);
            let h: i32 = rng_range(&mut rng, 4, 12);
            self.place_hazard(w, h, &mut rng);
            t = t + 1;
        }
        // Obstacles
        let nobs: i32 = area / 200;
        let mut t: i32 = 0;
        while t < nobs
            invariant
                self@.grid_wf(),
                same_frame(old(self)@, self@),
                self@.cells.len() == old(self)@.cells.len(),
                xs == self@.xsize,
                ys == self@.ysize,
                self@.pad_ok(),
                forall|i: int|
                    0 <= i < self@.cells.len() ==> CELL_HAZARD <= #[trigger] self@.cells[i] <= 0,
            decreases nobs - t,
        {
            let ghost pre = self@;
            let size: i32 = rng_range(&mut rng, 4, 12);
            self.place_obstacle(size, &mut rng);
            proof {
                assert forall|qx: int, qy: int|
                    0 <= qx < 4 && self@.ysize - 4 <= qy < self@.ysize implies #[trigger] self@.cell(
                    qx,
                    qy,
                ) == CELL_PAD by {
                    lemma_index_bounds(self@.xsize, self@.ysize, qx, qy);
                    assert(pre.cell(qx, qy) == CELL_PAD);
                }
            }
            t = t + 1;
        }
        // Dirt
        let ndirt: i32 = area / 10;
        let mut t: i32 = 0;
        while t < ndirt
            invariant
                self@.grid_wf(),
                same_frame(old(self)@, self@),
                self@.cells.len() == old(self)@.cells.len(),
                xs == self@.xsize,
                ys == self@.ysize,
                0 <= t,
                self@.pad_ok(),
                self@.cells_ok(),
                forall|i: int| 0 <= i < self@.cells.len() ==> #[trigger] self@.cells[i] <= t,
            decreases ndirt - t,
        {
            let ghost pre = self@;
            self.place_dirt(&mut rng);
            proof {
                assert forall|qx: int, qy: int|
                    0 <= qx < 4 && self@.ysize - 4 <= qy < self@.ysize implies #[trigger] self@.cell(
                    qx,
                    qy,
                ) == CELL_PAD by {
                    lemma_index_bounds(self@.xsize, self@.ysize, qx, qy);
                    assert(pre.cell(qx, qy) == CELL_PAD);
                }
            }
            t = t + 1;
        }
    }

    /// Builds a room of the given dimensions with a freshly generated
    /// pseudo-random level and the robot docked on the charging pad,
    /// heading up, with no reward accumulated yet.
    pub fn new(xsize: i32, ysize: i32) -> (room: Room)
        requires
            4 <= xsize,
            4 <= ysize,
            xsize * ysize <= i32::MAX,
        ensures
            room.wf(),
            room@.xsize == xsize,
            room@.ysize == ysize,
            room@.x == 1,
            room@.y == ysize - 3,
            room@.dirn == 0,
            room@.total == 0,
            room@.docked(),
    {
        let n: usize = (xsize * ysize) as usize;
        let mut cells: Vec<i32> = Vec::new();
        while cells.len() < n
            invariant
                cells@.len() <= n,
            decreases n - cells@.len(),
        {
            cells.push(0);
        }
        let mut room = Room::raw(xsize, ysize, cells, 1, ysize - 3, 0);
        room.generate_level();
        room
    }
}

} // verus!
