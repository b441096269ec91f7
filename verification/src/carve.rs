use vstd::prelude::*;
use crate::geometry::Rect;
use crate::grid::{on_horizontal_run, on_vertical_run, room_tile, TileGrid, TILE_FLOOR, TILE_WALL};

verus! {

impl TileGrid {
    /// Writes `val` to every cell of the grid.
    pub fn fill(&mut self, val: u32)
        requires
            old(self)@.wf(),
        ensures
            final(self)@.wf(),
            final(self)@.same_size(old(self)@),
            forall|x: int, y: int| final(self)@.in_bounds(x, y) ==> final(self)@.at(x, y) == val,
    {
        let width = self.width();
        let height = self.height();
        let mut y: usize = 0;
        while y < height
            invariant
                self@.wf(),
                self@.same_size(old(self)@),
                width == self@.width,
                height == self@.height,
                y <= height,
                forall|i: int, j: int| 0 <= i < width && 0 <= j < y ==> self@.at(i, j) == val,
            decreases height - y,
        {
            let mut x: usize = 0;
            while x < width
                invariant
                    self@.wf(),
                    self@.same_size(old(self)@),
                    width == self@.width,
                    height == self@.height,
                    y < height,
                    x <= width,
                    forall|i: int, j: int| 0 <= i < width && 0 <= j < y ==> self@.at(i, j) == val,
                    forall|i: int| 0 <= i < x ==> self@.at(i, y as int) == val,
                decreases width - x,
            {
                self.set_value(x, y, val);
                x += 1;
            }
            y += 1;
        }
    }

    /// Lays floor on row `y` from column `x1` to column `x2`, ends included,
    /// whichever of the two is the lower, and leaves every other cell as it was.
    pub fn carve_horizontal_corridor(&mut self, x1: i32, x2: i32, y: i32)
        requires
            old(self)@.wf(),
            old(self)@.in_bounds(x1 as int, y as int),
            old(self)@.in_bounds(x2 as int, y as int),
        ensures
            final(self)@.wf(),
            final(self)@.same_size(old(self)@),
            forall|i: int, j: int|
                final(self)@.in_bounds(i, j) ==> final(self)@.at(i, j) == if on_horizontal_run(
                    x1 as int,
                    x2 as int,
                    y as int,
                    i,
                    j,
                ) {
                    TILE_FLOOR
                } else {
                    old(self)@.at(i, j)
                },
    {
        let min_x: usize = if x1 <= x2 { x1 as usize } else { x2 as usize };
        let max_x: usize = if x1 <= x2 { x2 as usize } else { x1 as usize };
        let row: usize = y as usize;
        let mut x: usize = min_x;
        while x <= max_x
            invariant
                self@.wf(),
                self@.same_size(old(self)@),
                min_x <= x <= max_x + 1,
                max_x <= i32::MAX,
                max_x < self@.width,
                row < self@.height,
                forall|i: int, j: int|
                    self@.in_bounds(i, j) ==> self@.at(i, j) == if j == row && min_x <= i < x {
                        TILE_FLOOR
                    } else {
                        old(self)@.at(i, j)
                    },
            decreases max_x + 1 - x,
        {
            self.set_value(x, row, TILE_FLOOR);
            x += 1;
        }
    }

    /// Lays floor on column `x` from row `y1` to row `y2`, ends included,
    /// whichever of the two is the lower, and leaves every other cell as it was.
    pub fn carve_vertical_corridor(&mut self, y1: i32, y2: i32, x: i32)
        requires
            old(self)@.wf(),
            old(self)@.in_bounds(x as int, y1 as int),
            old(self)@.in_bounds(x as int, y2 as int),
        ensures
            final(self)@.wf(),
            final(self)@.same_size(old(self)@),
            forall|i: int, j: int|
                final(self)@.in_bounds(i, j) ==> final(self)@.at(i, j) == if on_vertical_run(
                    y1 as int,
                    y2 as int,
                    x as int,
                    i,
                    j,
                ) {
                    TILE_FLOOR
                } else {
                    old(self)@.at(i, j)
                },
    {
        let min_y: usize = if y1 <= y2 { y1 as usize } else { y2 as usize };
        let max_y: usize = if y1 <= y2 { y2 as usize } else { y1 as usize };
        let col: usize = x as usize;
        let mut y: usize = min_y;
        while y <= max_y
            invariant
                self@.wf(),
                self@.same_size(old(self)@),
                min_y <= y <= max_y + 1,
                max_y <= i32::MAX,
                max_y < self@.height,
                col < self@.width,
                forall|i: int, j: int|
                    self@.in_bounds(i, j) ==> self@.at(i, j) == if i == col && min_y <= j < y {
                        TILE_FLOOR
                    } else {
                        old(self)@.at(i, j)
                    },
            decreases max_y + 1 - y,
        {
            self.set_value(col, y, TILE_FLOOR);
            y += 1;
        }
    }

    /// Stamps the room `rect` into the grid: wall on every cell of its border,
    /// floor on every cell inside, and every cell outside it left as it was.
    pub fn carve_room(&mut self, rect: &Rect)
        requires
            old(self)@.wf(),
            rect.wf(),
            old(self)@.holds(*rect),
        ensures
            final(self)@.wf(),
            final(self)@.same_size(old(self)@),
            forall|i: int, j: int|
                final(self)@.in_bounds(i, j) ==> final(self)@.at(i, j) == room_tile(
                    *rect,
                    i,
                    j,
                    old(self)@.at(i, j),
                ),
    {
        let x1: usize = rect.x1 as usize;
        let x2: usize = rect.x2 as usize;
        let y1: usize = rect.y1 as usize;
        let y2: usize = rect.y2 as usize;
        let mut y: usize = y1;
        while y <= y2
            invariant
                self@.wf(),
                self@.same_size(old(self)@),
                rect.wf(),
                x1 == rect.x1 && x2 == rect.x2 && y1 == rect.y1 && y2 == rect.y2,
                x2 < self@.width,
                y2 < self@.height,
                y1 <= y <= y2 + 1,
                forall|i: int, j: int|
                    self@.in_bounds(i, j) ==> self@.at(i, j) == if j < y {
                        room_tile(*rect, i, j, old(self)@.at(i, j))
                    } else {
                        old(self)@.at(i, j)
                    },
            decreases y2 + 1 - y,
        {
            let mut x: usize = x1;
            while x <= x2
                invariant
                    self@.wf(),
                    self@.same_size(old(self)@),
                    rect.wf(),
                    x1 == rect.x1 && x2 == rect.x2 && y1 == rect.y1 && y2 == rect.y2,
                    x2 < self@.width,
                    y2 < self@.height,
                    y1 <= y <= y2,
                    x1 <= x <= x2 + 1,
                    forall|i: int, j: int|
                        self@.in_bounds(i, j) ==> self@.at(i, j) == if j < y || (j == y && i < x) {
                            room_tile(*rect, i, j, old(self)@.at(i, j))
                        } else {
                            old(self)@.at(i, j)
                        },
                decreases x2 + 1 - x,
            {
                if x == x1 || x == x2 || y == y1 || y == y2 {
                    self.set_value(x, y, TILE_WALL);
                } else {
                    self.set_value(x, y, TILE_FLOOR);
                }
                x += 1;
            }
            y += 1;
        }
    }
}

} // verus!
