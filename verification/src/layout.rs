use vstd::prelude::*;
use crate::config::LevelConfig;
use crate::geometry::Rect;
use crate::grid::{on_horizontal_run, on_vertical_run, TILE_FLOOR, TILE_WALL};

verus! {

/// `candidate` shares no cell with any of the rooms in `rooms`.
pub open spec fn fits(rooms: Seq<Rect>, candidate: Rect) -> bool {
    forall|i: int| #![trigger rooms[i]] 0 <= i < rooms.len() ==> !candidate.overlaps(&rooms[i])
}

/// No two of the rooms share a cell.
pub open spec fn disjoint(rooms: Seq<Rect>) -> bool {
    forall|i: int, j: int|
        #![trigger rooms[i], rooms[j]]
        0 <= i < j < rooms.len() ==> !rooms[i].overlaps(&rooms[j])
}

/// Every room is well formed and one that placement may propose.
pub open spec fn all_admitted(config: LevelConfig, rooms: Seq<Rect>) -> bool {
    forall|i: int| 0 <= i < rooms.len() ==> (#[trigger] rooms[i]).wf() && config.admits(rooms[i])
}

/// The cell `(x, y)` lies on the corridor with one bend from `(ax, ay)` to
/// `(bx, by)`. With `horizontal_first` the corridor runs along row `ay` to
/// column `bx` and then along that column; without it, along column `ax` to
/// row `by` and then along that row.
pub open spec fn on_elbow(
    ax: int,
    ay: int,
    bx: int,
    by: int,
    horizontal_first: bool,
    x: int,
    y: int,
) -> bool {
    if horizontal_first {
        on_horizontal_run(ax, bx, ay, x, y) || on_vertical_run(ay, by, bx, x, y)
    } else {
        on_vertical_run(ay, by, ax, x, y) || on_horizontal_run(ax, bx, by, x, y)
    }
}

/// The cell `(x, y)` lies on the corridor from the center of `prev` to the
/// center of `next`, which bends as `horizontal_first` says.
pub open spec fn on_link(prev: Rect, next: Rect, horizontal_first: bool, x: int, y: int) -> bool {
    on_elbow(
        prev.center_x(),
        prev.center_y(),
        next.center_x(),
        next.center_y(),
        horizontal_first,
        x,
        y,
    )
}

/// The cell `(x, y)` lies inside one of the rooms, off its border.
pub open spec fn in_room_interior(rooms: Seq<Rect>, x: int, y: int) -> bool {
    exists|i: int| 0 <= i < rooms.len() && (#[trigger] rooms[i]).in_interior(x, y)
}

/// The cell `(x, y)` lies on one of the corridors: corridor `k` joins room
/// `k` to room `k + 1` and takes its turn as `turns[k]` says.
pub open spec fn on_some_link(rooms: Seq<Rect>, turns: Seq<bool>, x: int, y: int) -> bool {
    exists|k: int|
        0 <= k < turns.len() && on_link(rooms[k], rooms[k + 1], #[trigger] turns[k], x, y)
}

/// The tile at `(x, y)` of a level with the given rooms and corridors: floor
/// on the corridors and inside the rooms, wall everywhere else.
pub open spec fn level_tile(rooms: Seq<Rect>, turns: Seq<bool>, x: int, y: int) -> u32 {
    if on_some_link(rooms, turns, x, y) || in_room_interior(rooms, x, y) {
        TILE_FLOOR
    } else {
        TILE_WALL
    }
}

/// Where the player starts: the center of the first room, or `(1, 1)` where
/// there is no room.
pub open spec fn spawn_of(rooms: Seq<Rect>) -> (int, int) {
    if rooms.len() == 0 {
        (1, 1)
    } else {
        (rooms[0].center_x(), rooms[0].center_y())
    }
}

/// The rooms accepted out of `proposals`, looked at in order: a proposal is
/// accepted when fewer than `max_rooms` rooms were accepted before it and it
/// shares no cell with any of them.
pub open spec fn accepted(config: LevelConfig, proposals: Seq<Rect>) -> Seq<Rect>
    decreases proposals.len(),
{
    if proposals.len() == 0 {
        Seq::empty()
    } else {
        let before = accepted(config, proposals.drop_last());
        if before.len() < config.max_rooms && fits(before, proposals.last()) {
            before.push(proposals.last())
        } else {
            before
        }
    }
}

/// How many of `proposals` are looked at: all that come while fewer than
/// `max_rooms` rooms are accepted.
pub open spec fn evaluated(config: LevelConfig, proposals: Seq<Rect>) -> nat
    decreases proposals.len(),
{
    if proposals.len() == 0 {
        0
    } else if accepted(config, proposals.drop_last()).len() < config.max_rooms {
        proposals.len()
    } else {
        evaluated(config, proposals.drop_last())
    }
}

/// The part of a script of proposals that placement can reach: its first
/// `max_attempts` entries.
pub open spec fn within_attempts(config: LevelConfig, proposals: Seq<Rect>) -> Seq<Rect> {
    if proposals.len() <= config.max_attempts {
        proposals
    } else {
        proposals.take(config.max_attempts as int)
    }
}

/// Placement never accepts more than `max_rooms` rooms nor more rooms than it
/// looked at, and it looks at no more proposals than there are.
pub proof fn lemma_accepted_bounds(config: LevelConfig, proposals: Seq<Rect>)
    ensures
        accepted(config, proposals).len() <= config.max_rooms,
        accepted(config, proposals).len() <= evaluated(config, proposals),
        evaluated(config, proposals) <= proposals.len(),
        proposals.len() >= 1 && config.max_rooms >= 1 ==> accepted(config, proposals).len() >= 1,
    decreases proposals.len(),
{
    if proposals.len() > 0 {
        lemma_accepted_bounds(config, proposals.drop_last());
        if proposals.len() == 1 {
            assert(proposals.drop_last().len() == 0);
            assert(accepted(config, proposals.drop_last()).len() == 0);
        }
    }
}

/// No two accepted rooms share a cell.
pub proof fn lemma_accepted_disjoint(config: LevelConfig, proposals: Seq<Rect>)
    ensures
        disjoint(accepted(config, proposals)),
    decreases proposals.len(),
{
    if proposals.len() > 0 {
        lemma_accepted_disjoint(config, proposals.drop_last());
    }
}

/// Every accepted room is one of the proposals, so accepted rooms have
/// whatever holds of all proposals: here, that placement may propose them.
pub proof fn lemma_accepted_admitted(config: LevelConfig, proposals: Seq<Rect>)
    requires
        all_admitted(config, proposals),
    ensures
        all_admitted(config, accepted(config, proposals)),
    decreases proposals.len(),
{
    if proposals.len() > 0 {
        let rest = proposals.drop_last();
        assert forall|i: int| 0 <= i < rest.len() implies (#[trigger] rest[i]).wf() && config.admits(
            rest[i],
        ) by {
            assert(rest[i] == proposals[i]);
        }
        lemma_accepted_admitted(config, rest);
        assert(proposals.last() == proposals[proposals.len() - 1]);
    }
}

/// Once `max_rooms` rooms are accepted, further proposals change nothing:
/// none is looked at and none is accepted.
pub proof fn lemma_full_stops(config: LevelConfig, proposals: Seq<Rect>, i: int, n: int)
    requires
        0 <= i <= n <= proposals.len(),
        accepted(config, proposals.take(i)).len() >= config.max_rooms,
    ensures
        accepted(config, proposals.take(n)) == accepted(config, proposals.take(i)),
        evaluated(config, proposals.take(n)) == evaluated(config, proposals.take(i)),
    decreases n - i,
{
    if i < n {
        lemma_full_stops(config, proposals, i, n - 1);
        assert(proposals.take(n).drop_last() =~= proposals.take(n - 1));
    }
}

} // verus!
