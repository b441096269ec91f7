use vstd::prelude::*;
use rand::rngs::ThreadRng;
use crate::random::uniform_below;

verus! {

/// The ceiling tile that goes with the draw `n`: 24 above eight, 12 at
/// eight, and the plain tile 0 otherwise.
pub open spec fn ceiling_tile_of(n: int) -> u32 {
    if n > 8 {
        24
    } else if n > 7 {
        12
    } else {
        0
    }
}

/// The floor tile that goes with the draw `n`: 42 above eight, 49 from five
/// to seven, and the plain tile 48 otherwise.
pub open spec fn floor_tile_of(n: int) -> u32 {
    if n > 8 {
        42
    } else if 4 < n <= 7 {
        49
    } else {
        48
    }
}

/// The ceiling tile that goes with the draw `n`.
pub fn ceiling_tile(n: i32) -> (tile: u32)
    ensures
        tile == ceiling_tile_of(n as int),
{
    if n > 8 {
        24
    } else if n > 4 && n > 7 {
        12
    } else {
        0
    }
}

/// The floor tile that goes with the draw `n`.
pub fn floor_tile(n: i32) -> (tile: u32)
    ensures
        tile == floor_tile_of(n as int),
{
    if n > 8 {
        42
    } else if n > 4 && n <= 7 {
        49
    } else {
        48
    }
}

/// A ceiling tile picked by a draw from 0 to 9: the plain one eight times in
/// ten. Which draw came is left to chance.
pub fn get_rand_ceiling_tile(rng: &mut ThreadRng) -> (tile: u32)
    ensures
        exists|n: int| 0 <= n < 10 && tile == #[trigger] ceiling_tile_of(n),
        tile == 0 || tile == 12 || tile == 24,
{
    let n = uniform_below(rng, 0, 10);
    ceiling_tile(n)
}

/// A floor tile picked by a draw from 0 to 9. Which draw came is left to
/// chance.
pub fn get_rand_floor_tile(rng: &mut ThreadRng) -> (tile: u32)
    ensures
        exists|n: int| 0 <= n < 10 && tile == #[trigger] floor_tile_of(n),
        tile == 42 || tile == 48 || tile == 49,
{
    let n = uniform_below(rng, 0, 10);
    floor_tile(n)
}

} // verus!
