use vstd::prelude::*;

verus! {

/// Half of `s`, rounded toward zero.
pub open spec fn trunc_half(s: int) -> int {
    if s >= 0 {
        s / 2
    } else {
        -((-s) / 2)
    }
}

/// An axis-aligned rectangle of grid cells, given by two opposite corners,
/// both of which belong to it.
#[derive(Clone, Copy, Debug, PartialEq, Eq, Structural)]
pub struct Rect {
    pub x1: i32,
    pub y1: i32,
    pub x2: i32,
    pub y2: i32,
}

impl Rect {
    /// The first corner is the lower one on both axes, so the rectangle
    /// holds at least one cell.
    pub open spec fn wf(&self) -> bool {
        self.x1 <= self.x2 && self.y1 <= self.y2
    }

    pub open spec fn width(&self) -> int {
        self.x2 - self.x1 + 1
    }

    pub open spec fn height(&self) -> int {
        self.y2 - self.y1 + 1
    }

    /// The cell `(x, y)` lies in the rectangle.
    pub open spec fn contains(&self, x: int, y: int) -> bool {
        self.x1 <= x <= self.x2 && self.y1 <= y <= self.y2
    }

    /// The cell `(x, y)` lies on the outermost ring of the rectangle.
    pub open spec fn on_border(&self, x: int, y: int) -> bool {
        self.contains(x, y) && (x == self.x1 || x == self.x2 || y == self.y1 || y == self.y2)
    }

    /// The cell `(x, y)` lies in the rectangle and off its outermost ring.
    pub open spec fn in_interior(&self, x: int, y: int) -> bool {
        self.x1 < x < self.x2 && self.y1 < y < self.y2
    }

    /// The two rectangles share at least one cell.
    pub open spec fn overlaps(&self, other: &Rect) -> bool {
        !(self.x2 < other.x1 || self.x1 > other.x2 || self.y2 < other.y1 || self.y1 > other.y2)
    }

    pub open spec fn center_x(&self) -> int {
        trunc_half(self.x1 + self.x2)
    }

    pub open spec fn center_y(&self) -> int {
        trunc_half(self.y1 + self.y2)
    }

    /// The rectangle whose lower corner is `(x, y)` and which is `w` cells
    /// wide and `h` cells high.
    pub fn new(x: i32, y: i32, w: i32, h: i32) -> (r: Rect)
        requires
            w >= 1,
            h >= 1,
            x + w - 1 <= i32::MAX,
            y + h - 1 <= i32::MAX,
        ensures
            r.x1 == x,
            r.y1 == y,
            r.x2 == x + w - 1,
            r.y2 == y + h - 1,
            r.wf(),
            r.width() == w,
            r.height() == h,
    {
        Rect { x1: x, y1: y, x2: x + (w - 1), y2: y + (h - 1) }
    }

    /// Whether the two rectangles share a cell. Rectangles that only touch
    /// along an edge, with no cell in common, do not intersect.
    pub fn intersects(&self, other: &Rect) -> (hit: bool)
        ensures
            hit == self.overlaps(other),
    {
        !(self.x2 < other.x1 || self.x1 > other.x2 || self.y2 < other.y1 || self.y1 > other.y2)
    }

    /// The midpoint of the rectangle on each axis, rounded toward zero.
    pub fn center(&self) -> (c: (i32, i32))
        ensures
            c.0 == self.center_x(),
            c.1 == self.center_y(),
    {
        let sum_x: i64 = self.x1 as i64 + self.x2 as i64;
        let sum_y: i64 = self.y1 as i64 + self.y2 as i64;
        ((sum_x / 2) as i32, (sum_y / 2) as i32)
    }
}

/// Two rectangles overlap exactly when some cell lies in both.
pub proof fn lemma_overlap_shares_cell(a: Rect, b: Rect)
    requires
        a.wf(),
        b.wf(),
    ensures
        a.overlaps(&b) <==> exists|x: int, y: int| a.contains(x, y) && #[trigger] b.contains(x, y),
{
    if a.overlaps(&b) {
        let x = if a.x1 >= b.x1 { a.x1 as int } else { b.x1 as int };
        let y = if a.y1 >= b.y1 { a.y1 as int } else { b.y1 as int };
        assert(a.contains(x, y) && b.contains(x, y));
    }
}

/// Overlap does not depend on the order of the two rectangles.
pub proof fn lemma_overlap_symmetric(a: Rect, b: Rect)
    ensures
        a.overlaps(&b) == b.overlaps(&a),
{
}

/// The center of a well-formed rectangle is one of its cells, and it lies
/// off the border once the rectangle is at least three cells each way.
pub proof fn lemma_center_inside(r: Rect)
    requires
        r.wf(),
    ensures
        r.contains(r.center_x(), r.center_y()),
        r.width() >= 3 && r.height() >= 3 ==> r.in_interior(r.center_x(), r.center_y()),
{
}

} // verus!
