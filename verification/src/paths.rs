use vstd::prelude::*;
use crate::config::lemma_admitted_keeps_margin;
use crate::geometry::{lemma_center_inside, Rect};
use crate::grid::TILE_FLOOR;
use crate::grid::TILE_WALL;
use crate::layout::{in_room_interior, on_elbow, on_link, on_some_link};
use crate::level::LevelView;

verus! {

/// The two cells are neighbours along a row or along a column.
pub open spec fn adjacent(a: (int, int), b: (int, int)) -> bool {
    ||| a.1 == b.1 && (a.0 == b.0 + 1 || b.0 == a.0 + 1)
    ||| a.0 == b.0 && (a.1 == b.1 + 1 || b.1 == a.1 + 1)
}

/// `cells` leads from `from` to `to`, each cell a neighbour of the one
/// before it.
pub open spec fn is_walk(cells: Seq<(int, int)>, from: (int, int), to: (int, int)) -> bool {
    &&& cells.len() >= 1
    &&& cells[0] == from
    &&& cells[cells.len() - 1] == to
    &&& forall|k: int| 0 <= k < cells.len() - 1 ==> adjacent(#[trigger] cells[k], cells[k + 1])
}

/// How many steps lie between `a` and `b`.
pub open spec fn span(a: int, b: int) -> int {
    if a <= b {
        b - a
    } else {
        a - b
    }
}

/// The coordinate reached after `k` steps from `a` in the direction of `b`.
pub open spec fn toward(a: int, b: int, k: int) -> int {
    if a <= b {
        a + k
    } else {
        a - k
    }
}

/// The cells of the corridor with one bend from `(ax, ay)` to `(bx, by)`, in
/// the order in which one walks them.
pub open spec fn elbow_walk(ax: int, ay: int, bx: int, by: int, horizontal_first: bool) -> Seq<
    (int, int),
> {
    if horizontal_first {
        Seq::new(
            (span(ax, bx) + span(ay, by) + 1) as nat,
            |k: int|
                if k <= span(ax, bx) {
                    (toward(ax, bx, k), ay)
                } else {
                    (bx, toward(ay, by, k - span(ax, bx)))
                },
        )
    } else {
        Seq::new(
            (span(ay, by) + span(ax, bx) + 1) as nat,
            |k: int|
                if k <= span(ay, by) {
                    (ax, toward(ay, by, k))
                } else {
                    (toward(ax, bx, k - span(ay, by)), by)
                },
        )
    }
}

/// The cells of the corridor from the center of `prev` to the center of
/// `next`, in the order in which one walks them.
pub open spec fn link_walk(prev: Rect, next: Rect, horizontal_first: bool) -> Seq<(int, int)> {
    elbow_walk(
        prev.center_x(),
        prev.center_y(),
        next.center_x(),
        next.center_y(),
        horizontal_first,
    )
}

impl LevelView {
    /// `cells` is a way from the center of room `i - 1` to the center of room
    /// `i` that keeps to the corridor between the two and to floor.
    pub open spec fn joins(self, i: int, cells: Seq<(int, int)>) -> bool {
        &&& is_walk(
            cells,
            (self.rooms[i - 1].center_x(), self.rooms[i - 1].center_y()),
            (self.rooms[i].center_x(), self.rooms[i].center_y()),
        )
        &&& forall|k: int|
            0 <= k < cells.len() ==> {
                let c = #[trigger] cells[k];
                &&& on_link(self.rooms[i - 1], self.rooms[i], self.turns[i - 1], c.0, c.1)
                &&& self.tiles.in_bounds(c.0, c.1)
                &&& self.tiles.at(c.0, c.1) == TILE_FLOOR
            }
    }

    /// There is a way over floor from the center of room `i - 1` to the
    /// center of room `i`, along the corridor between them.
    pub open spec fn joined(self, i: int) -> bool {
        exists|cells: Seq<(int, int)>| #[trigger] self.joins(i, cells)
    }

    /// From the center of every room but the first, the center of the room
    /// before it can be reached over floor, along the corridor between them.
    pub open spec fn connected(self) -> bool {
        forall|i: int| 1 <= i < self.rooms.len() ==> #[trigger] self.joined(i)
    }

    /// The start is `(1, 1)` where there is no room. Where there is one, the
    /// start is a floor tile, provided a corridor leaves the first room or
    /// that room is at least three cells each way.
    pub open spec fn spawn_valid(self) -> bool {
        &&& self.rooms.len() == 0 ==> self.spawn == (1int, 1int)
        &&& self.rooms.len() >= 1 ==> self.tiles.in_bounds(self.spawn.0, self.spawn.1)
        &&& (self.rooms.len() >= 2 || (self.rooms.len() == 1 && self.rooms[0].width() >= 3
            && self.rooms[0].height() >= 3)) ==> self.tiles.at(self.spawn.0, self.spawn.1)
            == TILE_FLOOR
    }

    /// Every corner of every room lies at column 1 to `grid_width - 2` and at
    /// row 1 to `grid_height - 2`: no room touches the edge of the grid.
    pub open spec fn rooms_keep_margin(self) -> bool {
        forall|i: int|
            0 <= i < self.rooms.len() ==> self.config.keeps_margin(#[trigger] self.rooms[i])
    }

    /// Every room has kept its shape.
    pub open spec fn rooms_intact(self) -> bool {
        forall|i: int| 0 <= i < self.rooms.len() ==> #[trigger] self.room_intact(i)
    }

    /// Room `i` has kept its shape: floor on every cell inside it, and wall
    /// on every cell of its border that no corridor crosses.
    pub open spec fn room_intact(self, i: int) -> bool {
        forall|x: int, y: int|
            #![trigger self.tiles.at(x, y)]
            self.rooms[i].contains(x, y) ==> {
                &&& self.tiles.in_bounds(x, y)
                &&& self.rooms[i].in_interior(x, y) ==> self.tiles.at(x, y) == TILE_FLOOR
                &&& self.rooms[i].on_border(x, y) && !on_some_link(self.rooms, self.turns, x, y)
                    ==> self.tiles.at(x, y) == TILE_WALL
            }
    }
}

/// A corridor with one bend, walked from end to end, is a walk, and every
/// cell of it lies on the corridor.
pub proof fn lemma_elbow_walk(ax: int, ay: int, bx: int, by: int, horizontal_first: bool)
    ensures
        is_walk(elbow_walk(ax, ay, bx, by, horizontal_first), (ax, ay), (bx, by)),
        forall|k: int|
            0 <= k < elbow_walk(ax, ay, bx, by, horizontal_first).len() ==> on_elbow(
                ax,
                ay,
                bx,
                by,
                horizontal_first,
                (#[trigger] elbow_walk(ax, ay, bx, by, horizontal_first)[k]).0,
                elbow_walk(ax, ay, bx, by, horizontal_first)[k].1,
            ),
{
    let cells = elbow_walk(ax, ay, bx, by, horizontal_first);
    let first = if horizontal_first {
        span(ax, bx)
    } else {
        span(ay, by)
    };
    let second = if horizontal_first {
        span(ay, by)
    } else {
        span(ax, bx)
    };
    assert(cells.len() == first + second + 1);
    assert(cells[0] == (ax, ay));
    assert(cells[cells.len() - 1] == (bx, by)) by {
        if second == 0 {
            assert(cells.len() - 1 == first);
        }
    }
    assert forall|k: int| 0 <= k < cells.len() - 1 implies adjacent(#[trigger] cells[k], cells[k + 1]) by {
        if k < first {
            assert(k + 1 <= first);
        } else if k == first {
            assert(k + 1 - first == 1);
        } else {
            assert(k + 1 > first);
        }
    }
    assert forall|k: int| 0 <= k < cells.len() implies on_elbow(
        ax,
        ay,
        bx,
        by,
        horizontal_first,
        (#[trigger] cells[k]).0,
        cells[k].1,
    ) by {
        if k <= first {
        } else {
            assert(0 < k - first <= second);
        }
    }
}

/// The corridor between two rooms, walked from one center to the other, is a
/// walk, and every cell of it lies on the corridor.
pub proof fn lemma_link_walk(prev: Rect, next: Rect, horizontal_first: bool)
    ensures
        is_walk(
            link_walk(prev, next, horizontal_first),
            (prev.center_x(), prev.center_y()),
            (next.center_x(), next.center_y()),
        ),
        forall|k: int|
            0 <= k < link_walk(prev, next, horizontal_first).len() ==> on_link(
                prev,
                next,
                horizontal_first,
                (#[trigger] link_walk(prev, next, horizontal_first)[k]).0,
                link_walk(prev, next, horizontal_first)[k].1,
            ),
{
    lemma_elbow_walk(
        prev.center_x(),
        prev.center_y(),
        next.center_x(),
        next.center_y(),
        horizontal_first,
    );
}

/// In a finished level, the corridor between room `i - 1` and room `i` is a
/// way over floor from the center of the one to the center of the other.
pub proof fn lemma_rooms_joined(v: LevelView, i: int)
    requires
        v.laid_out(),
        1 <= i < v.rooms.len(),
    ensures
        v.joins(i, link_walk(v.rooms[i - 1], v.rooms[i], v.turns[i - 1])),
{
    let prev = v.rooms[i - 1];
    let next = v.rooms[i];
    let turn = v.turns[i - 1];
    let cells = link_walk(prev, next, turn);
    lemma_link_walk(prev, next, turn);
    lemma_admitted_keeps_margin(v.config, prev);
    lemma_admitted_keeps_margin(v.config, next);
    lemma_center_inside(prev);
    lemma_center_inside(next);
    assert forall|k: int| 0 <= k < cells.len() implies {
        let c = #[trigger] cells[k];
        &&& on_link(prev, next, turn, c.0, c.1)
        &&& v.tiles.in_bounds(c.0, c.1)
        &&& v.tiles.at(c.0, c.1) == TILE_FLOOR
    } by {
        let c = cells[k];
        assert(on_link(prev, next, turn, c.0, c.1));
        assert(v.tiles.in_bounds(c.0, c.1));
        assert(on_link(v.rooms[i - 1], v.rooms[i - 1 + 1], v.turns[i - 1], c.0, c.1));
        assert(on_some_link(v.rooms, v.turns, c.0, c.1));
    }
}

/// A finished level is connected: every room can be reached from the one
/// before it.
pub proof fn lemma_connected(v: LevelView)
    requires
        v.laid_out(),
    ensures
        v.connected(),
{
    assert forall|i: int| 1 <= i < v.rooms.len() implies #[trigger] v.joined(i) by {
        lemma_rooms_joined(v, i);
    }
}

/// In a finished level the start is where it should be and, the first room
/// being roomy enough or joined to a second, on floor.
pub proof fn lemma_spawn_valid(v: LevelView)
    requires
        v.laid_out(),
    ensures
        v.spawn_valid(),
{
    if v.rooms.len() >= 1 {
        let first = v.rooms[0];
        lemma_admitted_keeps_margin(v.config, first);
        lemma_center_inside(first);
        if v.rooms.len() >= 2 {
            lemma_rooms_joined(v, 1);
            let cells = link_walk(v.rooms[0], v.rooms[1], v.turns[0]);
            assert(cells[0] == (first.center_x(), first.center_y()));
        } else if first.width() >= 3 && first.height() >= 3 {
            assert(v.rooms[0].in_interior(v.spawn.0, v.spawn.1));
            assert(in_room_interior(v.rooms, v.spawn.0, v.spawn.1));
        }
    }
}

/// In a finished level no room touches the edge of the grid, and every room
/// has kept its shape.
pub proof fn lemma_rooms_sound(v: LevelView)
    requires
        v.laid_out(),
    ensures
        v.rooms_keep_margin(),
        v.rooms_intact(),
{
    assert forall|i: int| 0 <= i < v.rooms.len() implies v.config.keeps_margin(
        #[trigger] v.rooms[i],
    ) by {
        lemma_admitted_keeps_margin(v.config, v.rooms[i]);
    }
    assert forall|i: int| 0 <= i < v.rooms.len() implies #[trigger] v.room_intact(i) by {
        lemma_rooms_intact(v, i);
    }
}

/// In a finished level every room has kept its shape.
pub proof fn lemma_rooms_intact(v: LevelView, i: int)
    requires
        v.laid_out(),
        0 <= i < v.rooms.len(),
    ensures
        v.room_intact(i),
{
    let room = v.rooms[i];
    lemma_admitted_keeps_margin(v.config, room);
    assert forall|x: int, y: int| #![trigger v.tiles.at(x, y)] room.contains(x, y) implies {
        &&& v.tiles.in_bounds(x, y)
        &&& room.in_interior(x, y) ==> v.tiles.at(x, y) == TILE_FLOOR
        &&& room.on_border(x, y) && !on_some_link(v.rooms, v.turns, x, y) ==> v.tiles.at(x, y)
            == TILE_WALL
    } by {
        assert(v.tiles.in_bounds(x, y));
        if room.in_interior(x, y) {
            assert(v.rooms[i].in_interior(x, y));
        }
        if room.on_border(x, y) && in_room_interior(v.rooms, x, y) {
            let j = choose|j: int| 0 <= j < v.rooms.len() && (#[trigger] v.rooms[j]).in_interior(x, y);
            if j < i {
                assert(!v.rooms[j].overlaps(&v.rooms[i]));
            } else if i < j {
                assert(!v.rooms[i].overlaps(&v.rooms[j]));
            }
        }
    }
}

} // verus!
