//! Screen-space geometry: points and axis-aligned rectangles in
//! fixed-point sub-pixel units, and the obstacle-overlap test that gates
//! item placement.

use vstd::prelude::*;

verus! {

/// Sub-pixel units per pixel: all coordinates are carried in thousandths.
pub const SUBPIXELS: i64 = 1000;

/// Bound on the magnitude of any coordinate or half-extent, in sub-pixel
/// units.  Keeping every stored coordinate within this bound lets the
/// overlap arithmetic below stay inside `i64`.
pub const COORD_LIMIT: i64 = 1_000_000_000_000;

/// A position on the canvas, in sub-pixel units.
#[derive(Clone, Copy, Debug, PartialEq, Eq, Structural)]
pub struct Point {
    pub x: i64,
    pub y: i64,
}

/// An axis-aligned UI obstacle rectangle: center position and
/// half-extents, in sub-pixel units.
#[derive(Clone, Copy, Debug, PartialEq, Eq, Structural)]
pub struct Rect {
    pub cx: i64,
    pub cy: i64,
    pub half_w: i64,
    pub half_h: i64,
}

impl Point {
    pub open spec fn wf(self) -> bool {
        &&& -COORD_LIMIT <= self.x <= COORD_LIMIT
        &&& -COORD_LIMIT <= self.y <= COORD_LIMIT
    }

    /// Builds a point, establishing the coordinate bound.
    pub fn new(x: i64, y: i64) -> (p: Point)
        requires
            -COORD_LIMIT <= x <= COORD_LIMIT,
            -COORD_LIMIT <= y <= COORD_LIMIT,
        ensures
            p.wf(),
            p.x == x,
            p.y == y,
    {
        Point { x, y }
    }
}

impl Rect {
    pub open spec fn wf(self) -> bool {
        &&& -COORD_LIMIT <= self.cx <= COORD_LIMIT
        &&& -COORD_LIMIT <= self.cy <= COORD_LIMIT
        &&& 0 <= self.half_w <= COORD_LIMIT
        &&& 0 <= self.half_h <= COORD_LIMIT
    }

    /// Builds a rectangle from its center and half-extents, establishing
    /// the coordinate bounds.
    pub fn new(cx: i64, cy: i64, half_w: i64, half_h: i64) -> (r: Rect)
        requires
            -COORD_LIMIT <= cx <= COORD_LIMIT,
            -COORD_LIMIT <= cy <= COORD_LIMIT,
            0 <= half_w <= COORD_LIMIT,
            0 <= half_h <= COORD_LIMIT,
        ensures
            r.wf(),
            r == (Rect { cx, cy, half_w, half_h }),
    {
        Rect { cx, cy, half_w, half_h }
    }
}

/// Whether the obstacle rectangle `r` blocks placement at point `p`: the
/// one-pixel-square footprint centered at `p` (half-extent of half a
/// pixel) strictly overlaps `r` on both axes.
pub open spec fn spec_blocks(r: Rect, p: Point) -> bool {
    &&& p.x - SUBPIXELS / 2 < r.cx + r.half_w
    &&& p.x + SUBPIXELS / 2 > r.cx - r.half_w
    &&& p.y - SUBPIXELS / 2 < r.cy + r.half_h
    &&& p.y + SUBPIXELS / 2 > r.cy - r.half_h
}

impl Rect {
    /// Decides whether this obstacle blocks placement at `p`.
    pub fn blocks(&self, p: &Point) -> (b: bool)
        requires
            self.wf(),
            p.wf(),
        ensures
            b == spec_blocks(*self, *p),
    {
        let half: i64 = SUBPIXELS / 2;
        p.x - half < self.cx + self.half_w && p.x + half > self.cx - self.half_w
            && p.y - half < self.cy + self.half_h && p.y + half > self.cy - self.half_h
    }
}

/// Whether any obstacle in `obstacles` blocks placement at `p`.
pub open spec fn spec_overlaps_ui(obstacles: Seq<Rect>, p: Point) -> bool {
    exists|i: int| 0 <= i < obstacles.len() && spec_blocks(obstacles[i], p)
}

/// Scans the obstacle set for one that blocks placement at `p`.
pub fn overlaps_ui(p: &Point, obstacles: &Vec<Rect>) -> (b: bool)
    requires
        p.wf(),
        forall|i: int| 0 <= i < obstacles@.len() ==> obstacles@[i].wf(),
    ensures
        b == spec_overlaps_ui(obstacles@, *p),
{
    let mut k: usize = 0;
    while k < obstacles.len()
        invariant
            p.wf(),
            k <= obstacles@.len(),
            forall|i: int| 0 <= i < obstacles@.len() ==> obstacles@[i].wf(),
            forall|i: int| 0 <= i < k ==> !spec_blocks(obstacles@[i], *p),
        decreases obstacles@.len() - k,
    {
        if obstacles[k].blocks(p) {
            return true;
        }
        k += 1;
    }
    false
}

} // verus!
