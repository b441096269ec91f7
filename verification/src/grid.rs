use vstd::prelude::*;
use crate::geometry::Rect;

verus! {

/// The tile code of a wall.
pub const TILE_WALL: u32 = 40;

/// The tile code of open floor.
pub const TILE_FLOOR: u32 = 0;

/// The tile that carving the room `r` leaves at `(x, y)`, where `before` was
/// there: wall on the room's border, floor inside it, and `before` elsewhere.
pub open spec fn room_tile(r: Rect, x: int, y: int, before: u32) -> u32 {
    if r.on_border(x, y) {
        TILE_WALL
    } else if r.contains(x, y) {
        TILE_FLOOR
    } else {
        before
    }
}

/// The cell `(x, y)` lies on the horizontal run of cells in row `row` between
/// the columns `xa` and `xb`, both included and given in either order.
pub open spec fn on_horizontal_run(xa: int, xb: int, row: int, x: int, y: int) -> bool {
    y == row && ((xa <= x <= xb) || (xb <= x <= xa))
}

/// The cell `(x, y)` lies on the vertical run of cells in column `col` between
/// the rows `ya` and `yb`, both included and given in either order.
pub open spec fn on_vertical_run(ya: int, yb: int, col: int, x: int, y: int) -> bool {
    x == col && ((ya <= y <= yb) || (yb <= y <= ya))
}

/// What a grid holds: `height` rows of `width` tile codes each.
pub struct Tiles {
    pub width: nat,
    pub height: nat,
    pub rows: Seq<Seq<u32>>,
}

impl Tiles {
    /// There are `height` rows and each is `width` tiles long.
    pub open spec fn wf(self) -> bool {
        &&& self.rows.len() == self.height
        &&& forall|y: int| 0 <= y < self.height ==> (#[trigger] self.rows[y]).len() == self.width
    }

    /// `(x, y)` names a cell of the grid.
    pub open spec fn in_bounds(self, x: int, y: int) -> bool {
        0 <= x < self.width && 0 <= y < self.height
    }

    /// The tile at column `x` of row `y`.
    pub open spec fn at(self, x: int, y: int) -> u32 {
        self.rows[y][x]
    }

    /// Every cell of `r` is a cell of the grid.
    pub open spec fn holds(self, r: Rect) -> bool {
        0 <= r.x1 && r.x2 < self.width && 0 <= r.y1 && r.y2 < self.height
    }

    /// The two grids have the same size.
    pub open spec fn same_size(self, other: Tiles) -> bool {
        self.width == other.width && self.height == other.height
    }
}

/// Two grids of one size that agree on every cell are the same grid.
pub proof fn lemma_tiles_equal(a: Tiles, b: Tiles)
    requires
        a.wf(),
        b.wf(),
        a.same_size(b),
        forall|x: int, y: int| a.in_bounds(x, y) ==> a.at(x, y) == b.at(x, y),
    ensures
        a == b,
{
    assert forall|y: int| 0 <= y < a.height implies a.rows[y] =~= b.rows[y] by {
        assert(a.rows[y].len() == a.width);
        assert(b.rows[y].len() == b.width);
        assert forall|x: int| 0 <= x < a.width implies a.rows[y][x] == b.rows[y][x] by {
            assert(a.in_bounds(x, y));
            assert(a.at(x, y) == b.at(x, y));
        }
    }
    assert(a.rows =~= b.rows);
}

/// A rectangular grid of tile codes, addressed by column `x` and row `y`.
pub struct TileGrid {
    width: usize,
    height: usize,
    rows: Vec<Vec<u32>>,
}

impl View for TileGrid {
    type V = Tiles;

    closed spec fn view(&self) -> Tiles {
        Tiles {
            width: self.width as nat,
            height: self.height as nat,
            rows: Seq::new(self.rows@.len(), |y: int| self.rows@[y]@),
        }
    }
}

impl TileGrid {
    /// A grid of `width` by `height` cells that all hold `val`.
    pub fn new(width: usize, height: usize, val: u32) -> (g: TileGrid)
        ensures
            g@.wf(),
            g@.width == width,
            g@.height == height,
            forall|x: int, y: int| g@.in_bounds(x, y) ==> g@.at(x, y) == val,
    {
        let mut rows: Vec<Vec<u32>> = Vec::new();
        let mut y: usize = 0;
        while y < height
            invariant
                y <= height,
                rows@.len() == y,
                forall|j: int| 0 <= j < y ==> (#[trigger] rows@[j])@.len() == width,
                forall|j: int, i: int| 0 <= j < y && 0 <= i < width ==> #[trigger] rows@[j]@[i] == val,
            decreases height - y,
        {
            let mut row: Vec<u32> = Vec::new();
            let mut x: usize = 0;
            while x < width
                invariant
                    x <= width,
                    row@.len() == x,
                    forall|i: int| 0 <= i < x ==> row@[i] == val,
                decreases width - x,
            {
                row.push(val);
                x += 1;
            }
            rows.push(row);
            y += 1;
        }
        TileGrid { width, height, rows }
    }

    /// The number of columns.
    pub fn width(&self) -> (w: usize)
        ensures
            w == self@.width,
    {
        self.width
    }

    /// The number of rows.
    pub fn height(&self) -> (h: usize)
        ensures
            h == self@.height,
    {
        self.height
    }

    /// The tile at `(x, y)`, or nothing where `(x, y)` is no cell of the grid.
    pub fn get(&self, x: usize, y: usize) -> (t: Option<u32>)
        requires
            self@.wf(),
        ensures
            self@.in_bounds(x as int, y as int) ==> t == Some(self@.at(x as int, y as int)),
            !self@.in_bounds(x as int, y as int) ==> t.is_none(),
    {
        if x < self.width && y < self.height {
            assert(self@.rows[y as int] == self.rows@[y as int]@);
            Some(self.rows[y][x])
        } else {
            None
        }
    }

    /// Writes `val` to the cell `(x, y)` and leaves every other cell as it was.
    pub fn set_value(&mut self, x: usize, y: usize, val: u32)
        requires
            old(self)@.wf(),
            old(self)@.in_bounds(x as int, y as int),
        ensures
            final(self)@.wf(),
            final(self)@.same_size(old(self)@),
            final(self)@.at(x as int, y as int) == val,
            forall|i: int, j: int|
                old(self)@.in_bounds(i, j) && !(i == x && j == y) ==> final(self)@.at(i, j) == old(
                    self,
                )@.at(i, j),
    {
        proof {
            assert(old(self)@.rows[y as int] == old(self).rows@[y as int]@);
        }
        self.rows[y][x] = val;
        proof {
            assert forall|j: int| 0 <= j < self@.height implies (#[trigger] self@.rows[j]).len()
                == self@.width by {
                assert(old(self)@.rows[j].len() == old(self)@.width);
            }
            assert forall|i: int, j: int| old(self)@.in_bounds(i, j) && !(i == x && j == y) implies self@.at(
                i,
                j,
            ) == old(self)@.at(i, j) by {
                assert(old(self)@.rows[j].len() == old(self)@.width);
            }
        }
    }
}

} // verus!
