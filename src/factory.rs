use vstd::prelude::*;

use crate::bag::Bag;
use crate::error::RulesError;
use crate::tile::Tile;

verus! {

/// The number of tiles a factory display shows after replenishment.
pub const FACTORY_TILES: usize = 4;

/// How many factory displays a game of `players` players lays out.
pub open spec fn factories_for(players: nat) -> Option<nat> {
    if players == 2 {
        Some(5)
    } else if players == 3 {
        Some(7)
    } else if players == 4 {
        Some(9)
    } else {
        None
    }
}

/// How many factory displays a game of `players` players lays out: five, seven
/// or nine for two, three or four players; any other count is refused.
pub fn factories_count(players: usize) -> (r: Result<usize, RulesError>)
    ensures
        factories_for(players as nat) matches Some(n) ==> r == Ok::<usize, RulesError>(n as usize),
        factories_for(players as nat) is None ==> r == Err::<usize, RulesError>(
            RulesError::InvalidPlayerCount,
        ),
{
    if players == 2 {
        Ok(5)
    } else if players == 3 {
        Ok(7)
    } else if players == 4 {
        Ok(9)
    } else {
        Err(RulesError::InvalidPlayerCount)
    }
}

/// The position of a factory display among the game's displays.
#[derive(Debug, Clone, Copy, PartialEq, Eq, Structural)]
pub struct Factory(pub usize);

/// A factory display with the tiles on it.
#[derive(Debug, Clone)]
pub struct FactoryBundle {
    pub factory: Factory,
    pub bag: Bag,
}

impl FactoryBundle {
    /// A display at position `index`, filled with the first `FACTORY_TILES`
    /// tiles drawn from `bag`; fails, leaving the bag as it was, when the bag
    /// holds fewer.
    pub fn replenish(index: usize, bag: &mut Bag) -> (r: Result<FactoryBundle, RulesError>)
        ensures
            old(bag).tiles@.len() >= FACTORY_TILES ==> (r matches Ok(f) && f.factory == Factory(
                index,
            ) && f.bag.tiles@.len() == FACTORY_TILES && f.bag.tiles@ == old(bag).tiles@.take(FACTORY_TILES as int) && final(bag).tiles@
                == old(bag).tiles@.skip(FACTORY_TILES as int)),
            old(bag).tiles@.len() < FACTORY_TILES ==> r == Err::<FactoryBundle, RulesError>(
                RulesError::InsufficientTiles,
            ) && *final(bag) == *old(bag),
    {
        match bag.draw(FACTORY_TILES) {
            Ok(tiles) => Ok(FactoryBundle { factory: Factory(index), bag: Bag::from_tiles(tiles) }),
            Err(e) => Err(e),
        }
    }

    /// The tiles on the display.
    pub fn tiles(&self) -> (r: &Vec<Tile>)
        ensures
            r@ == self.bag.tiles@,
    {
        &self.bag.tiles
    }

    /// The number of tiles on the display.
    pub fn len(&self) -> (r: usize)
        ensures
            r == self.bag.tiles@.len(),
    {
        self.bag.tiles.len()
    }
}

/// Lays out the displays for a game of `players` players, each filled with
/// the next `FACTORY_TILES` tiles from the front of `bag`: display `j` takes
/// tiles `4j` to `4j + 3`. Fails, leaving the bag as it was, on a player
/// count other than two, three or four, and when the bag cannot fill every display.
pub fn spawn_factories(bag: &mut Bag, players: usize) -> (r: Result<Vec<FactoryBundle>, RulesError>)
    ensures
        factories_for(players as nat) is None ==> r == Err::<Vec<FactoryBundle>, RulesError>(
            RulesError::InvalidPlayerCount,
        ) && *final(bag) == *old(bag),
        factories_for(players as nat) matches Some(n) ==> {
            &&& old(bag).tiles@.len() < n * FACTORY_TILES ==> r == Err::<
                Vec<FactoryBundle>,
                RulesError,
            >(RulesError::InsufficientTiles) && *final(bag) == *old(bag)
            &&& old(bag).tiles@.len() >= n * FACTORY_TILES ==> (r matches Ok(fs) && fs@.len()
                == n && final(bag).tiles@ == old(bag).tiles@.skip(FACTORY_TILES * n) && forall|
                j: int,
            |
                0 <= j < n ==> (#[trigger] fs@[j]).factory == Factory(j as usize)
                    && fs@[j].bag.tiles@ == old(bag).tiles@.subrange(
                    FACTORY_TILES * j,
                    FACTORY_TILES * j + FACTORY_TILES,
                ))
        },
{
    let n = match factories_count(players) {
        Ok(n) => n,
        Err(e) => {
            return Err(e);
        },
    };
    if bag.tiles.len() < n * FACTORY_TILES {
        return Err(RulesError::InsufficientTiles);
    }
    let ghost all = bag.tiles@;
    let mut factories: Vec<FactoryBundle> = Vec::new();
    let mut i: usize = 0;
    while i < n
        invariant
            i <= n <= 9,
            n * FACTORY_TILES <= all.len(),
            bag.tiles@ == all.skip(FACTORY_TILES * i),
            factories@.len() == i,
            forall|j: int|
                0 <= j < i ==> (#[trigger] factories@[j]).factory == Factory(j as usize)
                    && factories@[j].bag.tiles@ == all.subrange(
                    FACTORY_TILES * j,
                    FACTORY_TILES * j + FACTORY_TILES,
                ),
        decreases n - i,
    {
        match FactoryBundle::replenish(i, bag) {
            Ok(f) => {
                factories.push(f);
            },
            Err(e) => {
                return Err(e);
            },
        }
        proof {
            let at = FACTORY_TILES * i;
            assert(all.skip(at).take(FACTORY_TILES as int) =~= all.subrange(
                at,
                at + FACTORY_TILES,
            ));
            assert(all.skip(at).skip(FACTORY_TILES as int) =~= all.skip(at + FACTORY_TILES));
        }
        i = i + 1;
    }
    Ok(factories)
}

/// The shared pool of tiles passed over when players take from a display.
#[derive(Debug, Clone)]
pub struct Center {
    pub tiles: Vec<Tile>,
}

impl Center {
    /// An empty center.
    pub fn new() -> (r: Center)
        ensures
            r.tiles@.len() == 0,
    {
        Center { tiles: Vec::new() }
    }

    /// The number of tiles in the center.
    pub fn len(&self) -> (r: usize)
        ensures
            r == self.tiles@.len(),
    {
        self.tiles.len()
    }
}

} // verus!
