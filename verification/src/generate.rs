use vstd::prelude::*;
use crate::config::LevelConfig;
use crate::geometry::Rect;
use crate::grid::lemma_tiles_equal;
use crate::layout::{accepted, all_admitted, evaluated, lemma_full_stops, within_attempts};
use crate::level::{Level, LevelView};
use crate::paths::{lemma_connected, lemma_rooms_sound, lemma_spawn_valid};

verus! {

impl LevelView {
    /// The level is what generation makes of the script: the rooms are the
    /// ones accepted out of the proposals that the attempts reach, the
    /// corridors turn as the first coins say, and tiles and start are what
    /// follows from them.
    pub open spec fn built_from(
        self,
        config: LevelConfig,
        proposals: Seq<Rect>,
        coins: Seq<bool>,
    ) -> bool {
        &&& self.config == config
        &&& self.laid_out()
        &&& self.rooms == accepted(config, within_attempts(config, proposals))
        &&& self.attempts == evaluated(config, within_attempts(config, proposals))
        &&& self.turns == coins.take(self.turns.len() as int)
    }
}

/// Generation is a function of what is drawn: two levels made with the same
/// parameters from the same proposals and coins are the same, tile for tile,
/// and start at the same cell.
pub proof fn lemma_script_decides_level(
    a: LevelView,
    b: LevelView,
    config: LevelConfig,
    proposals: Seq<Rect>,
    coins: Seq<bool>,
)
    requires
        a.built_from(config, proposals, coins),
        b.built_from(config, proposals, coins),
    ensures
        a == b,
{
    assert(a.rooms == b.rooms);
    assert(a.turns.len() == b.turns.len());
    assert(a.turns == b.turns);
    assert forall|x: int, y: int| a.tiles.in_bounds(x, y) implies a.tiles.at(x, y) == b.tiles.at(
        x,
        y,
    ) by {
        assert(b.tiles.in_bounds(x, y));
    }
    lemma_tiles_equal(a.tiles, b.tiles);
}

impl Level {
    /// Generates the level anew from random draws: every tile is turned to
    /// wall, candidate rooms are drawn and the ones that fit are carved,
    /// each room is joined to the one before it, and the start is put in
    /// the first room.
    ///
    /// Which rooms and turns come out is left to chance. Whatever is drawn,
    /// the level is the one that `build_from` makes of the same proposals and
    /// coins, placement has gone on until rooms or attempts ran out, and the
    /// first candidate was accepted.
    pub fn build(&mut self)
        requires
            old(self)@.wf(),
        ensures
            final(self)@.config == old(self)@.config,
            final(self)@.laid_out(),
            final(self)@.rooms.len() == final(self)@.config.max_rooms || final(self)@.attempts
                == final(self)@.config.max_attempts,
            final(self)@.attempts >= 1 ==> final(self)@.rooms.len() >= 1,
            exists|proposals: Seq<Rect>, coins: Seq<bool>|
                all_admitted(old(self)@.config, proposals) && #[trigger] final(self)@.built_from(
                    old(self)@.config,
                    proposals,
                    coins,
                ),
            final(self)@.rooms_keep_margin(),
            final(self)@.rooms_intact(),
            final(self)@.spawn_valid(),
            final(self)@.connected(),
    {
        self.reset();
        let config = self.config();
        let ghost mut drawn: Seq<Rect> = Seq::empty();
        while self.attempts() < config.max_attempts && self.rooms().len() < config.max_rooms
            invariant
                config == old(self)@.config,
                self@.config == config,
                self@.wf(),
                self@.rooms_ok(),
                self@.rendered(),
                self@.turns.len() == 0,
                self@.spawn == (1int, 1int),
                self@.attempts >= 1 ==> self@.rooms.len() >= 1,
                all_admitted(config, drawn),
                drawn.len() == self@.attempts,
                self@.rooms == accepted(config, drawn),
                evaluated(config, drawn) == drawn.len(),
            decreases config.max_attempts - self@.attempts,
        {
            let w = self.draw_below(config.min_room_size, config.max_room_size + 1);
            let h = self.draw_below(config.min_room_size, config.max_room_size + 1);
            let x = self.draw_below(1, config.grid_width - w - 1);
            let y = self.draw_below(1, config.grid_height - h - 1);
            let candidate = Rect::new(x, y, w, h);
            proof {
                assert(drawn.push(candidate).drop_last() =~= drawn);
                assert(drawn.push(candidate).last() == candidate);
                drawn = drawn.push(candidate);
            }
            self.place_room(candidate);
        }
        assert(within_attempts(config, drawn) == drawn);
        while self.turns().len() + 1 < self.rooms().len()
            invariant
                config == old(self)@.config,
                self@.config == config,
                self@.wf(),
                self@.rooms_ok(),
                self@.rendered(),
                self@.spawn == (1int, 1int),
                self@.rooms.len() == 0 ==> self@.turns.len() == 0,
                self@.rooms.len() >= 1 ==> self@.turns.len() <= self@.rooms.len() - 1,
                self@.rooms.len() == config.max_rooms || self@.attempts == config.max_attempts,
                self@.attempts >= 1 ==> self@.rooms.len() >= 1,
                self@.rooms == accepted(config, drawn),
                self@.attempts == evaluated(config, drawn),
            decreases self@.rooms.len() - self@.turns.len(),
        {
            let horizontal_first = self.flip();
            self.link_rooms(horizontal_first);
        }
        self.place_spawn();
        proof {
            lemma_rooms_sound(self@);
            lemma_spawn_valid(self@);
            lemma_connected(self@);
            assert(self@.turns =~= self@.turns.take(self@.turns.len() as int));
            assert(self@.built_from(config, drawn, self@.turns));
        }
    }

    /// Generates the level anew from a script in place of random draws:
    /// `proposals` are the candidate rooms in the order in which they are
    /// drawn, `coins` says for each corridor in turn whether it starts out
    /// horizontally. Placement stops at the end of the script as it does
    /// when attempts or rooms run out.
    pub fn build_from(&mut self, proposals: &Vec<Rect>, coins: &Vec<bool>)
        requires
            old(self)@.wf(),
            all_admitted(old(self)@.config, proposals@),
            coins@.len() + 1 >= accepted(
                old(self)@.config,
                within_attempts(old(self)@.config, proposals@),
            ).len(),
        ensures
            final(self)@.built_from(old(self)@.config, proposals@, coins@),
            final(self)@.rooms_keep_margin(),
            final(self)@.rooms_intact(),
            final(self)@.spawn_valid(),
            final(self)@.connected(),
    {
        self.reset();
        let config = self.config();
        let ghost script = within_attempts(config, proposals@);
        let mut i: usize = 0;
        proof {
            assert(proposals@.take(0) =~= Seq::<Rect>::empty());
        }
        while i < proposals.len() && self.attempts() < config.max_attempts && self.rooms().len()
            < config.max_rooms
            invariant
                config == old(self)@.config,
                self@.config == config,
                self@.wf(),
                self@.rooms_ok(),
                self@.rendered(),
                self@.turns.len() == 0,
                self@.spawn == (1int, 1int),
                all_admitted(config, proposals@),
                i <= proposals@.len(),
                self@.attempts == i,
                self@.rooms == accepted(config, proposals@.take(i as int)),
                evaluated(config, proposals@.take(i as int)) == i,
            decreases proposals@.len() - i,
        {
            let candidate: Rect = proposals[i];
            proof {
                assert(proposals@.take(i + 1).drop_last() =~= proposals@.take(i as int));
                assert(proposals@.take(i + 1).last() == candidate);
            }
            self.place_room(candidate);
            i += 1;
        }
        proof {
            let n = script.len() as int;
            assert(script =~= proposals@.take(n));
            assert(i <= n);
            if i < n {
                lemma_full_stops(config, proposals@, i as int, n);
            }
            assert(self@.rooms == accepted(config, script));
            assert(self@.attempts == evaluated(config, script));
        }
        while self.turns().len() + 1 < self.rooms().len()
            invariant
                config == old(self)@.config,
                self@.config == config,
                self@.wf(),
                self@.rooms_ok(),
                self@.rendered(),
                self@.spawn == (1int, 1int),
                self@.rooms.len() == 0 ==> self@.turns.len() == 0,
                self@.rooms.len() >= 1 ==> self@.turns.len() <= self@.rooms.len() - 1,
                self@.rooms == accepted(config, script),
                self@.attempts == evaluated(config, script),
                coins@.len() + 1 >= self@.rooms.len(),
                self@.turns == coins@.take(self@.turns.len() as int),
            decreases self@.rooms.len() - self@.turns.len(),
        {
            let k: usize = self.turns().len();
            let horizontal_first: bool = coins[k];
            self.link_rooms(horizontal_first);
            proof {
                assert(coins@.take(k + 1) =~= coins@.take(k as int).push(horizontal_first));
            }
        }
        self.place_spawn();
        proof {
            lemma_rooms_sound(self@);
            lemma_spawn_valid(self@);
            lemma_connected(self@);
        }
    }
}

} // verus!
