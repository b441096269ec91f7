use vstd::prelude::*;
use rand::rngs::ThreadRng;
use crate::config::{lemma_admitted_keeps_margin, ConfigError, LevelConfig};
use crate::geometry::{lemma_center_inside, Rect};
use crate::grid::{TileGrid, Tiles, TILE_WALL};
use crate::layout::{
    all_admitted, disjoint, fits, in_room_interior, level_tile, on_link, on_some_link, spawn_of,
};
use crate::random::{chance, uniform_below};

verus! {

/// A dungeon level: a grid of tiles, the rooms and corridors that were carved
/// into it, and the cell where the player starts.
pub struct Level {
    rng: ThreadRng,
    config: LevelConfig,
    data: TileGrid,
    spawn: [u32; 2],
    rooms: Vec<Rect>,
    turns: Vec<bool>,
    attempts: u32,
}

/// What a level holds, the random number generator left out.
pub struct LevelView {
    /// The parameters the level was made with.
    pub config: LevelConfig,
    /// The tiles.
    pub tiles: Tiles,
    /// Column and row of the cell where the player starts.
    pub spawn: (int, int),
    /// The rooms, in the order in which they were accepted.
    pub rooms: Seq<Rect>,
    /// For each corridor, in order, whether it starts out horizontally.
    /// Corridor `k` joins room `k` to room `k + 1`.
    pub turns: Seq<bool>,
    /// How many candidate rooms were looked at.
    pub attempts: nat,
}

impl LevelView {
    /// The parameters are usable and the grid has the size they give.
    pub open spec fn wf(self) -> bool {
        &&& self.config.valid()
        &&& self.tiles.wf()
        &&& self.tiles.width == self.config.grid_width
        &&& self.tiles.height == self.config.grid_height
    }

    /// The level is as it is made, before anything is built: the grid has
    /// the size that `config` gives and holds 0 everywhere, there are no
    /// rooms, and the start is `(1, 1)`.
    pub open spec fn blank_for(self, config: LevelConfig) -> bool {
        &&& self.wf()
        &&& self.config == config
        &&& forall|x: int, y: int| self.tiles.in_bounds(x, y) ==> self.tiles.at(x, y) == 0
        &&& self.spawn == (1int, 1int)
        &&& self.rooms.len() == 0
        &&& self.turns.len() == 0
        &&& self.attempts == 0
    }

    /// The rooms are such as placement may propose, no two of them share a
    /// cell, and neither they nor the candidates looked at are more than the
    /// parameters allow.
    pub open spec fn rooms_ok(self) -> bool {
        &&& all_admitted(self.config, self.rooms)
        &&& disjoint(self.rooms)
        &&& self.rooms.len() <= self.config.max_rooms
        &&& self.rooms.len() <= self.attempts <= self.config.max_attempts
    }

    /// Every tile is what the rooms and corridors make it.
    pub open spec fn rendered(self) -> bool {
        forall|x: int, y: int|
            self.tiles.in_bounds(x, y) ==> #[trigger] self.tiles.at(x, y) == level_tile(
                self.rooms,
                self.turns,
                x,
                y,
            )
    }

    /// Each room but the first is joined to the one before it.
    pub open spec fn all_linked(self) -> bool {
        if self.rooms.len() == 0 {
            self.turns.len() == 0
        } else {
            self.turns.len() == self.rooms.len() - 1
        }
    }

    /// The level is finished: rooms placed, corridors carved, start chosen.
    pub open spec fn laid_out(self) -> bool {
        &&& self.wf()
        &&& self.rooms_ok()
        &&& self.all_linked()
        &&& self.rendered()
        &&& self.spawn == spawn_of(self.rooms)
    }
}

impl View for Level {
    type V = LevelView;

    closed spec fn view(&self) -> LevelView {
        LevelView {
            config: self.config,
            tiles: self.data@,
            spawn: (self.spawn[0] as int, self.spawn[1] as int),
            rooms: self.rooms@,
            turns: self.turns@,
            attempts: self.attempts as nat,
        }
    }
}

impl Level {
    /// A blank level for the classic parameters: every tile 0, no rooms, the
    /// start at `(1, 1)`.
    pub fn new() -> (level: Level)
        ensures
            level@.blank_for(LevelConfig::classic()),
    {
        Level {
            rng: rand::thread_rng(),
            config: LevelConfig::default(),
            data: TileGrid::new(64, 64, 0),
            spawn: [1, 1],
            rooms: Vec::new(),
            turns: Vec::new(),
            attempts: 0,
        }
    }

    /// A blank level for the given parameters, or what is wrong with them.
    pub fn with_config(config: LevelConfig) -> (res: Result<Level, ConfigError>)
        ensures
            res.is_ok() <==> config.valid(),
            res matches Err(e) ==> config.fault() == Some(e),
            res matches Ok(level) ==> level@.blank_for(config),
    {
        Level::with_rng(config, rand::thread_rng())
    }

    /// A blank level for the given parameters that draws from `rng`, or what
    /// is wrong with the parameters.
    pub fn with_rng(config: LevelConfig, rng: ThreadRng) -> (res: Result<Level, ConfigError>)
        ensures
            res.is_ok() <==> config.valid(),
            res matches Err(e) ==> config.fault() == Some(e),
            res matches Ok(level) ==> level@.blank_for(config),
    {
        match config.validate() {
            Err(e) => Err(e),
            Ok(()) => Ok(
                Level {
                    rng,
                    config,
                    data: TileGrid::new(config.grid_width as usize, config.grid_height as usize, 0),
                    spawn: [1, 1],
                    rooms: Vec::new(),
                    turns: Vec::new(),
                    attempts: 0,
                },
            ),
        }
    }

    /// The parameters the level was made with.
    pub fn config(&self) -> (c: LevelConfig)
        ensures
            c == self@.config,
    {
        self.config
    }

    /// The tiles.
    pub fn data(&self) -> (g: &TileGrid)
        ensures
            g@ == self@.tiles,
    {
        &self.data
    }

    /// Column and row of the cell where the player starts.
    pub fn spawn(&self) -> (s: [u32; 2])
        ensures
            s[0] == self@.spawn.0,
            s[1] == self@.spawn.1,
    {
        self.spawn
    }

    /// The rooms, in the order in which they were accepted.
    pub fn rooms(&self) -> (r: &Vec<Rect>)
        ensures
            r@ == self@.rooms,
    {
        &self.rooms
    }

    /// For each corridor, in order, whether it starts out horizontally.
    pub fn turns(&self) -> (t: &Vec<bool>)
        ensures
            t@ == self@.turns,
    {
        &self.turns
    }

    /// How many candidate rooms the last build looked at.
    pub fn attempts(&self) -> (n: u32)
        ensures
            n == self@.attempts,
    {
        self.attempts
    }

    /// Writes `val` to the tile at `(x, y)` and changes nothing else.
    pub fn set_value(&mut self, x: u32, y: u32, val: u32)
        requires
            old(self)@.wf(),
            old(self)@.tiles.in_bounds(x as int, y as int),
        ensures
            final(self)@.wf(),
            final(self)@ == (LevelView { tiles: final(self)@.tiles, ..old(self)@ }),
            final(self)@.tiles.at(x as int, y as int) == val,
            forall|i: int, j: int|
                old(self)@.tiles.in_bounds(i, j) && !(i == x && j == y) ==> final(self)@.tiles.at(
                    i,
                    j,
                ) == old(self)@.tiles.at(i, j),
    {
        self.data.set_value(x as usize, y as usize, val);
    }

    /// Draws an integer from `low` up to, not including, `high`.
    pub(crate) fn draw_below(&mut self, low: i32, high: i32) -> (r: i32)
        requires
            low < high,
        ensures
            low <= r < high,
            final(self)@ == old(self)@,
    {
        uniform_below(&mut self.rng, low, high)
    }

    /// Flips a fair coin.
    pub(crate) fn flip(&mut self) -> (heads: bool)
        ensures
            final(self)@ == old(self)@,
    {
        chance(&mut self.rng, 1, 2)
    }

    /// Turns every tile to wall and forgets rooms, corridors and attempts;
    /// the start goes back to `(1, 1)`.
    pub(crate) fn reset(&mut self)
        requires
            old(self)@.wf(),
        ensures
            final(self)@.wf(),
            final(self)@.rooms_ok(),
            final(self)@.rendered(),
            final(self)@.config == old(self)@.config,
            final(self)@.rooms.len() == 0,
            final(self)@.turns.len() == 0,
            final(self)@.attempts == 0,
            final(self)@.spawn == (1int, 1int),
    {
        self.data.fill(TILE_WALL);
        self.rooms = Vec::new();
        self.turns = Vec::new();
        self.attempts = 0;
        self.spawn = [1, 1];
    }

    /// Whether `candidate` shares no cell with any room accepted so far.
    pub fn has_room_for(&self, candidate: &Rect) -> (ok: bool)
        ensures
            ok == fits(self@.rooms, *candidate),
    {
        let mut i: usize = 0;
        while i < self.rooms.len()
            invariant
                i <= self.rooms@.len(),
                forall|k: int|
                    #![trigger self.rooms@[k]]
                    0 <= k < i ==> !candidate.overlaps(&self.rooms@[k]),
            decreases self.rooms@.len() - i,
        {
            if candidate.intersects(&self.rooms[i]) {
                return false;
            }
            i += 1;
        }
        true
    }

    /// Looks at one candidate room: where it shares no cell with a room
    /// accepted before, it is accepted and carved.
    pub(crate) fn place_room(&mut self, candidate: Rect) -> (ok: bool)
        requires
            old(self)@.wf(),
            old(self)@.rooms_ok(),
            old(self)@.rendered(),
            old(self)@.turns.len() == 0,
            old(self)@.rooms.len() < old(self)@.config.max_rooms,
            old(self)@.attempts < old(self)@.config.max_attempts,
            candidate.wf(),
            old(self)@.config.admits(candidate),
        ensures
            ok == fits(old(self)@.rooms, candidate),
            final(self)@.rooms == if ok {
                old(self)@.rooms.push(candidate)
            } else {
                old(self)@.rooms
            },
            final(self)@.attempts == old(self)@.attempts + 1,
            final(self)@.config == old(self)@.config,
            final(self)@.turns == old(self)@.turns,
            final(self)@.spawn == old(self)@.spawn,
            final(self)@.wf(),
            final(self)@.rooms_ok(),
            final(self)@.rendered(),
    {
        self.attempts = self.attempts + 1;
        if !self.has_room_for(&candidate) {
            return false;
        }
        proof {
            lemma_admitted_keeps_margin(self@.config, candidate);
        }
        self.data.carve_room(&candidate);
        self.rooms.push(candidate);
        proof {
            let before = old(self)@;
            let after = self@;
            assert(after.rooms == before.rooms.push(candidate));
            assert forall|x: int, y: int| after.tiles.in_bounds(x, y) implies #[trigger] after.tiles.at(
                x,
                y,
            ) == level_tile(after.rooms, after.turns, x, y) by {
                assert(before.tiles.in_bounds(x, y));
                assert(before.tiles.at(x, y) == level_tile(before.rooms, before.turns, x, y));
                if candidate.contains(x, y) {
                    if candidate.in_interior(x, y) {
                        assert(after.rooms[before.rooms.len() as int].in_interior(x, y));
                    } else {
                        assert forall|k: int| 0 <= k < after.rooms.len() implies !(
                        #[trigger] after.rooms[k]).in_interior(x, y) by {
                            if k < before.rooms.len() {
                                assert(after.rooms[k] == before.rooms[k]);
                                assert(!candidate.overlaps(&before.rooms[k]));
                            }
                        }
                    }
                } else {
                    if in_room_interior(before.rooms, x, y) {
                        let k = choose|k: int|
                            0 <= k < before.rooms.len() && (#[trigger] before.rooms[k]).in_interior(x, y);
                        assert(after.rooms[k].in_interior(x, y));
                    }
                    if in_room_interior(after.rooms, x, y) {
                        let k = choose|k: int|
                            0 <= k < after.rooms.len() && (#[trigger] after.rooms[k]).in_interior(x, y);
                        assert(k < before.rooms.len());
                        assert(before.rooms[k].in_interior(x, y));
                    }
                }
            }
        }
        true
    }

    /// Carves the next corridor, from the last room that is joined to those
    /// before it to the room after it, starting out horizontally or not as
    /// `horizontal_first` says.
    pub(crate) fn link_rooms(&mut self, horizontal_first: bool)
        requires
            old(self)@.wf(),
            old(self)@.rooms_ok(),
            old(self)@.rendered(),
            old(self)@.turns.len() + 1 < old(self)@.rooms.len(),
        ensures
            final(self)@ == (LevelView {
                tiles: final(self)@.tiles,
                turns: old(self)@.turns.push(horizontal_first),
                ..old(self)@
            }),
            final(self)@.wf(),
            final(self)@.rendered(),
    {
        let k: usize = self.turns.len();
        let prev: Rect = self.rooms[k];
        let next: Rect = self.rooms[k + 1];
        let (prev_x, prev_y) = prev.center();
        let (new_x, new_y) = next.center();
        proof {
            assert(self@.rooms[k as int] == prev && self@.rooms[k + 1] == next);
            lemma_admitted_keeps_margin(self@.config, prev);
            lemma_admitted_keeps_margin(self@.config, next);
            lemma_center_inside(prev);
            lemma_center_inside(next);
        }
        if horizontal_first {
            self.data.carve_horizontal_corridor(prev_x, new_x, prev_y);
            self.data.carve_vertical_corridor(prev_y, new_y, new_x);
        } else {
            self.data.carve_vertical_corridor(prev_y, new_y, prev_x);
            self.data.carve_horizontal_corridor(prev_x, new_x, new_y);
        }
        self.turns.push(horizontal_first);
        proof {
            let before = old(self)@;
            let after = self@;
            assert(after.turns == before.turns.push(horizontal_first));
            assert forall|x: int, y: int| after.tiles.in_bounds(x, y) implies #[trigger] after.tiles.at(
                x,
                y,
            ) == level_tile(after.rooms, after.turns, x, y) by {
                assert(before.tiles.in_bounds(x, y));
                assert(before.tiles.at(x, y) == level_tile(before.rooms, before.turns, x, y));
                if on_link(prev, next, horizontal_first, x, y) {
                    assert(on_link(
                        after.rooms[k as int],
                        after.rooms[k + 1],
                        after.turns[k as int],
                        x,
                        y,
                    ));
                } else {
                    if on_some_link(before.rooms, before.turns, x, y) {
                        let j = choose|j: int|
                            0 <= j < before.turns.len() && on_link(
                                before.rooms[j],
                                before.rooms[j + 1],
                                #[trigger] before.turns[j],
                                x,
                                y,
                            );
                        assert(on_link(after.rooms[j], after.rooms[j + 1], after.turns[j], x, y));
                    }
                    if on_some_link(after.rooms, after.turns, x, y) {
                        let j = choose|j: int|
                            0 <= j < after.turns.len() && on_link(
                                after.rooms[j],
                                after.rooms[j + 1],
                                #[trigger] after.turns[j],
                                x,
                                y,
                            );
                        assert(j < k);
                        assert(on_link(
                            before.rooms[j],
                            before.rooms[j + 1],
                            before.turns[j],
                            x,
                            y,
                        ));
                    }
                }
            }
        }
    }

    /// Puts the start at the center of the first room, where there is one.
    pub(crate) fn place_spawn(&mut self)
        requires
            old(self)@.wf(),
            old(self)@.rooms_ok(),
        ensures
            final(self)@ == (LevelView { spawn: spawn_of(old(self)@.rooms), ..old(self)@ }),
    {
        if self.rooms.len() > 0 {
            let first: Rect = self.rooms[0];
            let (spawn_x, spawn_y) = first.center();
            proof {
                lemma_admitted_keeps_margin(self@.config, first);
                lemma_center_inside(first);
            }
            self.spawn = [spawn_x as u32, spawn_y as u32];
        } else {
            self.spawn = [1, 1];
        }
    }
}

} // verus!
