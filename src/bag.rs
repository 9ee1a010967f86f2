use vstd::prelude::*;
use rand::rngs::StdRng;
use rand::seq::SliceRandom;
use rand::SeedableRng;

use crate::error::RulesError;
use crate::tile::{Tile, TileColor};

verus! {

/// The number of tiles of each color in a standard game.
pub const TILES_PER_COLOR: usize = 20;

/// The number of colors in a standard game.
pub const COLORS: usize = 5;

/// The position of a color in the order in which a fresh bag is filled:
/// red, green, blue, white, black.
pub open spec fn color_rank(c: TileColor) -> nat {
    match c {
        TileColor::Red => 0,
        TileColor::Green => 1,
        TileColor::Blue => 2,
        TileColor::White => 3,
        TileColor::Black => 4,
    }
}

/// How many tiles of color `c` a bag of `colors` colors with
/// `tiles_per_color` tiles each holds.
pub open spec fn stock(colors: nat, tiles_per_color: nat, c: TileColor) -> nat {
    if color_rank(c) < colors {
        tiles_per_color
    } else {
        0
    }
}

/// The color at position `k` of the fill order.
fn color_at(k: usize) -> (c: TileColor)
    requires
        k < COLORS,
    ensures
        color_rank(c) == k,
{
    if k == 0 {
        TileColor::Red
    } else if k == 1 {
        TileColor::Green
    } else if k == 2 {
        TileColor::Blue
    } else if k == 3 {
        TileColor::White
    } else {
        TileColor::Black
    }
}

/// Relies on rand's `SliceRandom::shuffle` on a `StdRng` seeded by
/// `SeedableRng::seed_from_u64`: the shuffle only swaps elements, so the
/// result holds the same tiles in some order.
#[verifier::external_body]
fn shuffle_tiles(tiles: Vec<Tile>, seed: u64) -> (r: Vec<Tile>)
    ensures
        r@.to_multiset() == tiles@.to_multiset(),
{
    let mut tiles = tiles;
    let mut rng = StdRng::seed_from_u64(seed);
    tiles.shuffle(&mut rng);
    tiles
}

/// The pool of undrawn tiles; tiles are drawn from the front.
#[derive(Debug, Clone)]
pub struct Bag {
    pub tiles: Vec<Tile>,
}

impl Bag {
    /// `tiles_per_color` tiles of each of the first `colors` colors of the
    /// fill order, color after color.
    fn fresh_tiles(colors: usize, tiles_per_color: usize) -> (r: Vec<Tile>)
        requires
            colors <= COLORS,
            colors * tiles_per_color <= usize::MAX,
        ensures
            r@.len() == colors * tiles_per_color,
            forall|c: TileColor|
                #[trigger] r@.to_multiset().count(Tile { color: c }) == stock(
                    colors as nat,
                    tiles_per_color as nat,
                    c,
                ),
    {
        broadcast use vstd::seq_lib::group_to_multiset_ensures;

        let mut tiles: Vec<Tile> = Vec::new();
        let mut k: usize = 0;
        while k < colors
            invariant
                k <= colors <= COLORS,
                colors * tiles_per_color <= usize::MAX,
                tiles@.len() == k * tiles_per_color,
                forall|c: TileColor|
                    #[trigger] tiles@.to_multiset().count(Tile { color: c }) == if color_rank(c)
                        < k {
                        tiles_per_color as nat
                    } else {
                        0
                    },
            decreases colors - k,
        {
            let color = color_at(k);
            let mut i: usize = 0;
            assert(k * tiles_per_color + tiles_per_color <= colors * tiles_per_color)
                by (nonlinear_arith)
                requires
                    k < colors,
            ;
            while i < tiles_per_color
                invariant
                    k < colors <= COLORS,
                    i <= tiles_per_color,
                    color_rank(color) == k,
                    k * tiles_per_color + tiles_per_color <= usize::MAX,
                    tiles@.len() == k * tiles_per_color + i,
                    forall|c: TileColor|
                        #[trigger] tiles@.to_multiset().count(Tile { color: c }) == if color_rank(c)
                            < k {
                            tiles_per_color as nat
                        } else if c == color {
                            i as nat
                        } else {
                            0
                        },
                decreases tiles_per_color - i,
            {
                let ghost before = tiles@;
                tiles.push(Tile::new(color));
                assert(tiles@ == before.push(Tile { color }));
                proof {
                    vstd::seq_lib::to_multiset_build(before, Tile { color });
                }
                i = i + 1;
            }
            assert((k + 1) * tiles_per_color == k * tiles_per_color + tiles_per_color)
                by (nonlinear_arith);
            assert forall|c: TileColor| color_rank(c) == k implies c == color by {}
            k = k + 1;
        }
        tiles
    }

    /// A bag of `colors * tiles_per_color` tiles, `tiles_per_color` of each of
    /// the first `colors` colors of the fill order, shuffled by a random
    /// source seeded with `seed`.
    pub fn new(colors: usize, tiles_per_color: usize, seed: u64) -> (r: Bag)
        requires
            colors <= COLORS,
            colors * tiles_per_color <= usize::MAX,
        ensures
            r.tiles@.len() == colors * tiles_per_color,
            forall|c: TileColor|
                #[trigger] r.tiles@.to_multiset().count(Tile { color: c }) == stock(
                    colors as nat,
                    tiles_per_color as nat,
                    c,
                ),
    {
        broadcast use vstd::seq_lib::group_to_multiset_ensures;

        let tiles = Self::fresh_tiles(colors, tiles_per_color);
        let shuffled = shuffle_tiles(tiles, seed);
        assert(shuffled@.len() == shuffled@.to_multiset().len());
        Bag { tiles: shuffled }
    }

    /// A bag that yields `tiles` in the order given.
    pub fn from_tiles(tiles: Vec<Tile>) -> (r: Bag)
        ensures
            r.tiles@ == tiles@,
    {
        Bag { tiles }
    }

    /// The number of undrawn tiles.
    pub fn len(&self) -> (r: usize)
        ensures
            r == self.tiles@.len(),
    {
        self.tiles.len()
    }

    /// Whether no tile is left.
    pub fn is_empty(&self) -> (r: bool)
        ensures
            r == (self.tiles@.len() == 0),
    {
        self.tiles.len() == 0
    }

    /// Removes the first `n` tiles and returns them in bag order; fails,
    /// leaving the bag as it was, when fewer than `n` are left.
    pub fn draw(&mut self, n: usize) -> (r: Result<Vec<Tile>, RulesError>)
        ensures
            n <= old(self).tiles@.len() ==> (r matches Ok(drawn) && drawn@ == old(
                self,
            ).tiles@.take(n as int) && final(self).tiles@ == old(self).tiles@.skip(n as int)),
            n > old(self).tiles@.len() ==> r == Err::<Vec<Tile>, RulesError>(
                RulesError::InsufficientTiles,
            ) && *final(self) == *old(self),
    {
        if n > self.tiles.len() {
            return Err(RulesError::InsufficientTiles);
        }
        let mut drawn = self.tiles.split_off(n);
        std::mem::swap(&mut drawn, &mut self.tiles);
        Ok(drawn)
    }
}

} // verus!
