use vstd::prelude::*;

use crate::bag::{stock, Bag, COLORS, TILES_PER_COLOR};
use crate::board::{Player, ROWS};
use crate::error::RulesError;
use crate::factory::{factories_for, spawn_factories, Center, Factory, FactoryBundle, FACTORY_TILES};
use crate::tally::{lemma_sum_const, lemma_sum_update, sum};
use crate::tile::{count_color, lemma_split_len, others, split_by_color, tiles_of, Tile, TileColor};

verus! {

/// The step of a turn the game is waiting for.
#[derive(Debug, Clone, Copy, PartialEq, Eq, Structural)]
pub enum GameState {
    /// The current player is to choose a display or the center.
    PickingFactory,
    /// A display is chosen; the current player is to name a color and a row.
    PickingColor,
    /// Pattern lines are moved to the wall; no rule of this engine acts in it.
    Tiling,
}

/// The number of tiles on each display.
pub open spec fn factory_lens(fs: Seq<FactoryBundle>) -> Seq<int> {
    fs.map_values(|f: FactoryBundle| f.bag.tiles@.len() as int)
}

/// The number of tiles on each player's board.
pub open spec fn placed_per_player(ps: Seq<Player>) -> Seq<int> {
    ps.map_values(|p: Player| p.board.placed_tiles())
}

/// The whole game: players, displays, center, bag and the turn cursor.
#[derive(Debug)]
pub struct Game {
    pub players: Vec<Player>,
    pub factories: Vec<FactoryBundle>,
    pub center: Center,
    pub bag: Bag,
    pub selected_factory: Option<usize>,
    pub player_index: usize,
    pub phase: GameState,
}

impl Game {
    /// The shape every game keeps between operations.
    pub open spec fn wf(&self) -> bool {
        &&& factories_for(self.players@.len()) == Some(self.factories@.len())
        &&& self.player_index < self.players@.len()
        &&& forall|i: int| 0 <= i < self.players@.len() ==> (#[trigger] self.players@[i]).board.wf()
        &&& forall|i: int|
            0 <= i < self.factories@.len() ==> (#[trigger] self.factories@[i]).factory == Factory(
                i as usize,
            )
        &&& (self.phase == GameState::PickingColor <==> self.selected_factory is Some)
        &&& self.selected_factory matches Some(i) ==> i < self.factories@.len()
            && self.factories@[i as int].bag.tiles@.len() > 0
    }

    /// Every tile of the game, wherever it lies: bag, displays, center and boards.
    pub open spec fn total_tiles(&self) -> int {
        self.bag.tiles@.len() + sum(factory_lens(self.factories@)) + self.center.tiles@.len()
            + sum(placed_per_player(self.players@))
    }

    /// Why the current player may not take color `c` from display `i` into row
    /// `row`, if there is a reason.
    pub open spec fn factory_error(&self, i: int, c: TileColor, row: int) -> Option<RulesError> {
        if !(0 <= i < self.factories@.len()) || self.factories@[i].bag.tiles@.len() == 0 {
            Some(RulesError::InvalidSelection)
        } else if count_color(self.factories@[i].bag.tiles@, c) == 0 {
            Some(RulesError::ColorNotPresent)
        } else {
            self.players@[self.player_index as int].board.placement_error(row, c)
        }
    }

    /// Why the current player may not take color `c` from the center into row
    /// `row`, if there is a reason.
    pub open spec fn center_error(&self, c: TileColor, row: int) -> Option<RulesError> {
        if self.phase != GameState::PickingFactory || self.center.tiles@.len() == 0 {
            Some(RulesError::InvalidSelection)
        } else if count_color(self.center.tiles@, c) == 0 {
            Some(RulesError::ColorNotPresent)
        } else {
            self.players@[self.player_index as int].board.placement_error(row, c)
        }
    }

    /// The current player of `pre` took the `k` tiles of color `c` into row
    /// `row`, the turn passed to the next player, and the game waits for a
    /// display again; the bag is untouched.
    pub open spec fn took(pre: &Game, post: &Game, c: TileColor, row: int, k: nat) -> bool {
        let p = pre.player_index as int;
        let board = pre.players@[p].board;
        &&& post.bag == pre.bag
        &&& post.players@.len() == pre.players@.len()
        &&& forall|j: int|
            0 <= j < pre.players@.len() && j != p ==> #[trigger] post.players@[j]
                == pre.players@[j]
        &&& post.players@[p].name == pre.players@[p].name
        &&& post.players@[p].board.rows@ == board.rows@.update(
            row,
            board.rows@[row].after_add(c, k),
        )
        &&& post.players@[p].board.floor@ == board.floor@ + tiles_of(
            c,
            board.rows@[row].overflow(k),
        )
        &&& post.player_index == (pre.player_index + 1) % (pre.players@.len() as int)
        &&& post.selected_factory is None
        &&& post.phase == GameState::PickingFactory
    }

    /// `post` is `pre` after its current player took every tile of color `c`
    /// from display `i` into row `row`, and the rest of the display went to the center.
    pub open spec fn took_from_factory(
        pre: &Game,
        post: &Game,
        i: int,
        c: TileColor,
        row: int,
    ) -> bool {
        let src = pre.factories@[i].bag.tiles@;
        &&& Game::took(pre, post, c, row, count_color(src, c))
        &&& post.factories@.len() == pre.factories@.len()
        &&& forall|j: int|
            0 <= j < pre.factories@.len() && j != i ==> #[trigger] post.factories@[j]
                == pre.factories@[j]
        &&& post.factories@[i].factory == pre.factories@[i].factory
        &&& post.factories@[i].bag.tiles@.len() == 0
        &&& post.center.tiles@ == pre.center.tiles@ + others(src, c)
    }

    /// `post` is `pre` after its current player took every tile of color `c`
    /// from the center into row `row`; the other tiles stay there in order.
    pub open spec fn took_from_center(pre: &Game, post: &Game, c: TileColor, row: int) -> bool {
        let src = pre.center.tiles@;
        &&& Game::took(pre, post, c, row, count_color(src, c))
        &&& post.factories@ == pre.factories@
        &&& post.center.tiles@ == others(src, c)
    }

    /// `self` is a game just dealt for players named `names` from a bag that
    /// yields `tiles`: display `i` shows tiles `4i` to `4i + 3`, the bag keeps
    /// the rest, and nothing else holds a tile yet.
    pub open spec fn dealt(&self, names: Seq<String>, tiles: Seq<Tile>) -> bool {
        &&& self.players@.len() == names.len()
        &&& forall|j: int|
            0 <= j < names.len() ==> (#[trigger] self.players@[j]).name == names[j]
                && self.players@[j].board.is_clear()
        &&& forall|j: int|
            0 <= j < self.factories@.len() ==> (#[trigger] self.factories@[j]).bag.tiles@
                == tiles.subrange(FACTORY_TILES * j, FACTORY_TILES * j + FACTORY_TILES)
        &&& self.bag.tiles@ == tiles.skip(FACTORY_TILES * self.factories@.len())
        &&& self.center.tiles@.len() == 0
        &&& self.selected_factory is None
        &&& self.player_index == 0
        &&& self.phase == GameState::PickingFactory
    }

    /// Whether every display and the center are empty, which ends the round.
    pub open spec fn round_over(&self) -> bool {
        &&& forall|i: int|
            0 <= i < self.factories@.len() ==> (#[trigger] self.factories@[i]).bag.tiles@.len()
                == 0
        &&& self.center.tiles@.len() == 0
    }

    /// A game for players named `player_names`, in that order, dealt from
    /// `bag`: each display takes its tiles from the front of the bag. Fails
    /// unless there are two, three or four players, and when the bag cannot
    /// fill every display.
    pub fn with_bag(player_names: Vec<String>, bag: Bag) -> (r: Result<Game, RulesError>)
        ensures
            factories_for(player_names@.len()) is None ==> r == Err::<Game, RulesError>(
                RulesError::InvalidPlayerCount,
            ),
            factories_for(player_names@.len()) matches Some(n) ==> {
                &&& bag.tiles@.len() < n * FACTORY_TILES ==> r == Err::<Game, RulesError>(
                    RulesError::InsufficientTiles,
                )
                &&& bag.tiles@.len() >= n * FACTORY_TILES ==> (r matches Ok(g) && g.wf()
                    && g.factories@.len() == n && g.dealt(player_names@, bag.tiles@)
                    && g.total_tiles() == bag.tiles@.len())
            },
    {
        let ghost names0 = player_names@;

        let mut names = player_names;
        let mut players: Vec<Player> = Vec::new();
        while names.len() > 0
            invariant
                players@.len() + names@.len() == names0.len(),
                names@ == names0.skip(players@.len() as int),
                forall|j: int|
                    0 <= j < players@.len() ==> (#[trigger] players@[j]).name == names0[j]
                        && players@[j].board.wf() && players@[j].board.is_clear()
                        && players@[j].board.placed_tiles() == 0,
            decreases names@.len(),
        {
            let ghost k = players@.len() as int;
            let name = names.remove(0);
            assert(names0.skip(k).remove(0) =~= names0.skip(k + 1));
            players.push(Player::new(name));
        }

        let mut bag = bag;
        let factories = match spawn_factories(&mut bag, players.len()) {
            Ok(fs) => fs,
            Err(e) => {
                return Err(e);
            },
        };
        let g = Game {
            players,
            factories,
            center: Center::new(),
            bag,
            selected_factory: None,
            player_index: 0,
            phase: GameState::PickingFactory,
        };
        proof {
            lemma_sum_const(factory_lens(g.factories@), FACTORY_TILES as int);
            lemma_sum_const(placed_per_player(g.players@), 0);
            assert(names0.skip(names0.len() as int) =~= Seq::<String>::empty());
        }
        Ok(g)
    }

    /// A game for players named `player_names`, in that order, with a full
    /// bag of five colors, twenty tiles each, shuffled by a random source
    /// seeded with `seed`, and every display filled with four tiles. Fails
    /// unless there are two, three or four players.
    pub fn new(player_names: Vec<String>, seed: u64) -> (r: Result<Game, RulesError>)
        ensures
            factories_for(player_names@.len()) is None ==> r == Err::<Game, RulesError>(
                RulesError::InvalidPlayerCount,
            ),
            factories_for(player_names@.len()) matches Some(n) ==> (r matches Ok(g) && g.wf()
                && g.factories@.len() == n && (forall|i: int|
                0 <= i < n ==> (#[trigger] g.factories@[i]).bag.tiles@.len() == FACTORY_TILES)
                && g.total_tiles() == COLORS * TILES_PER_COLOR && exists|t: Seq<Tile>|
                {
                    &&& t.len() == COLORS * TILES_PER_COLOR
                    &&& forall|c: TileColor|
                        #[trigger] t.to_multiset().count(Tile { color: c }) == TILES_PER_COLOR
                    &&& g.dealt(player_names@, t)
                }),
    {
        let bag = Bag::new(COLORS, TILES_PER_COLOR, seed);
        proof {
            assert forall|c: TileColor|
                #[trigger] bag.tiles@.to_multiset().count(Tile { color: c })
                    == TILES_PER_COLOR by {
                assert(stock(COLORS as nat, TILES_PER_COLOR as nat, c) == TILES_PER_COLOR);
            }
        }
        Self::with_bag(player_names, bag)
    }

    /// The current player's board in `post` holds `k` tiles more than in
    /// `pre`, and the other boards are as they were: together they hold `k` more.
    proof fn lemma_took_adds(pre: &Game, post: &Game, c: TileColor, row: int, k: nat)
        requires
            pre.wf(),
            0 <= row < ROWS,
            Game::took(pre, post, c, row, k),
        ensures
            sum(placed_per_player(post.players@)) == sum(placed_per_player(pre.players@)) + k,
    {
        let p = pre.player_index as int;
        let board = pre.players@[p].board;
        board.lemma_place_adds(row, c, k);
        let after = post.players@[p].board.placed_tiles();
        assert(placed_per_player(post.players@) =~= placed_per_player(pre.players@).update(
            p,
            after,
        ));
        lemma_sum_update(placed_per_player(pre.players@), p, after);
    }

    /// Taking a color from a display loses no tile and makes none up: the
    /// chosen tiles go to the current player's board, the others to the center.
    pub proof fn lemma_factory_move_keeps_tiles(
        pre: &Game,
        post: &Game,
        i: int,
        c: TileColor,
        row: int,
    )
        requires
            pre.wf(),
            pre.factory_error(i, c, row) is None,
            Game::took_from_factory(pre, post, i, c, row),
        ensures
            post.total_tiles() == pre.total_tiles(),
    {
        let src = pre.factories@[i].bag.tiles@;
        lemma_split_len(src, c);
        Game::lemma_took_adds(pre, post, c, row, count_color(src, c));
        assert(factory_lens(post.factories@) =~= factory_lens(pre.factories@).update(i, 0));
        lemma_sum_update(factory_lens(pre.factories@), i, 0);
    }

    /// Taking a color from the center loses no tile and makes none up: the
    /// chosen tiles go to the current player's board, the others stay.
    pub proof fn lemma_center_move_keeps_tiles(pre: &Game, post: &Game, c: TileColor, row: int)
        requires
            pre.wf(),
            pre.center_error(c, row) is None,
            Game::took_from_center(pre, post, c, row),
        ensures
            post.total_tiles() == pre.total_tiles(),
    {
        let src = pre.center.tiles@;
        lemma_split_len(src, c);
        Game::lemma_took_adds(pre, post, c, row, count_color(src, c));
    }

    /// Passes the turn to the next player and waits for a display again.
    fn finish_turn(&mut self)
        requires
            old(self).player_index < old(self).players@.len(),
        ensures
            final(self).players == old(self).players,
            final(self).factories == old(self).factories,
            final(self).center == old(self).center,
            final(self).bag == old(self).bag,
            final(self).player_index == (old(self).player_index + 1) % (old(
                self,
            ).players@.len() as int),
            final(self).selected_factory is None,
            final(self).phase == GameState::PickingFactory,
    {
        let n = self.players.len();
        let ghost q = self.player_index as int;
        if self.player_index >= n - 1 {
            self.player_index = 0;
            assert((q + 1) % (n as int) == 0) by {
                vstd::arithmetic::div_mod::lemma_mod_self_0(n as int);
            }
        } else {
            self.player_index = self.player_index + 1;
            assert((q + 1) % (n as int) == q + 1) by {
                vstd::arithmetic::div_mod::lemma_small_mod((q + 1) as nat, n as nat);
            }
        }
        self.selected_factory = None;
        self.phase = GameState::PickingFactory;
    }

    /// Moves the tiles of color `c` on display `i` to row `row` of the current
    /// player, the rest of the display to the center, and ends the turn.
    fn take_from_factory(&mut self, i: usize, c: TileColor, row: usize)
        requires
            old(self).wf(),
            old(self).factory_error(i as int, c, row as int) is None,
        ensures
            final(self).wf(),
            Game::took_from_factory(old(self), final(self), i as int, c, row as int),
            final(self).total_tiles() == old(self).total_tiles(),
    {
        let ghost pre = *self;
        let p = self.player_index;
        let (hit, miss) = split_by_color(&self.factories[i].bag.tiles, c);
        let k = hit.len();
        let _placed = self.players[p].board.place(row, c, k);
        self.factories[i].bag.tiles = Vec::new();
        let mut rest = miss;
        self.center.tiles.append(&mut rest);
        self.finish_turn();
        proof {
            Game::lemma_factory_move_keeps_tiles(&pre, self, i as int, c, row as int);
        }
    }

    /// Moves the tiles of color `c` in the center to row `row` of the current
    /// player and ends the turn.
    fn take_from_center(&mut self, c: TileColor, row: usize)
        requires
            old(self).wf(),
            old(self).center_error(c, row as int) is None,
        ensures
            final(self).wf(),
            Game::took_from_center(old(self), final(self), c, row as int),
            final(self).total_tiles() == old(self).total_tiles(),
    {
        let ghost pre = *self;
        let p = self.player_index;
        let (hit, miss) = split_by_color(&self.center.tiles, c);
        let k = hit.len();
        let _placed = self.players[p].board.place(row, c, k);
        self.center.tiles = miss;
        self.finish_turn();
        proof {
            Game::lemma_center_move_keeps_tiles(&pre, self, c, row as int);
        }
    }

    /// Why the current player may not take color `c` from display `i` into
    /// row `row`, if there is a reason.
    fn check_factory(&self, i: usize, c: TileColor, row: usize) -> (r: Option<RulesError>)
        requires
            self.wf(),
        ensures
            r == self.factory_error(i as int, c, row as int),
    {
        if i >= self.factories.len() || self.factories[i].bag.tiles.len() == 0 {
            return Some(RulesError::InvalidSelection);
        }
        let (hit, _) = split_by_color(&self.factories[i].bag.tiles, c);
        if hit.len() == 0 {
            return Some(RulesError::ColorNotPresent);
        }
        self.players[self.player_index].board.check_placement(row, c)
    }

    /// Takes every tile of color `c` from display `factory_index` into row
    /// `row` of the current player; the rest of the display goes to the
    /// center and the turn passes to the next player. Allowed only while the
    /// game waits for a display. On an error nothing changes.
    pub fn select_factory(&mut self, factory_index: usize, color: TileColor, row: usize) -> (r:
        Result<(), RulesError>)
        requires
            old(self).wf(),
        ensures
            final(self).wf(),
            final(self).total_tiles() == old(self).total_tiles(),
            old(self).phase != GameState::PickingFactory ==> r == Err::<(), RulesError>(
                RulesError::InvalidSelection,
            ) && *final(self) == *old(self),
            old(self).phase == GameState::PickingFactory ==> {
                &&& old(self).factory_error(factory_index as int, color, row as int) matches Some(
                    e,
                ) ==> r == Err::<(), RulesError>(e) && *final(self) == *old(self)
                &&& old(self).factory_error(factory_index as int, color, row as int) is None ==> r
                    is Ok && Game::took_from_factory(
                    old(self),
                    final(self),
                    factory_index as int,
                    color,
                    row as int,
                )
            },
            r is Ok ==> final(self).player_index == (old(self).player_index + 1) % (old(
                self,
            ).players@.len() as int),
    {
        if self.phase != GameState::PickingFactory {
            return Err(RulesError::InvalidSelection);
        }
        match self.check_factory(factory_index, color, row) {
            Some(e) => Err(e),
            None => {
                self.take_from_factory(factory_index, color, row);
                Ok(())
            },
        }
    }

    /// Takes every tile of color `c` from the center into row `row` of the
    /// current player; the other tiles stay in the center and the turn passes
    /// to the next player. Allowed only while the game waits for a display.
    /// On an error nothing changes.
    pub fn select_center(&mut self, color: TileColor, row: usize) -> (r: Result<(), RulesError>)
        requires
            old(self).wf(),
        ensures
            final(self).wf(),
            final(self).total_tiles() == old(self).total_tiles(),
            old(self).center_error(color, row as int) matches Some(e) ==> r == Err::<
                (),
                RulesError,
            >(e) && *final(self) == *old(self),
            old(self).center_error(color, row as int) is None ==> r is Ok
                && Game::took_from_center(old(self), final(self), color, row as int),
            r is Ok ==> final(self).player_index == (old(self).player_index + 1) % (old(
                self,
            ).players@.len() as int),
    {
        if self.phase != GameState::PickingFactory || self.center.tiles.len() == 0 {
            return Err(RulesError::InvalidSelection);
        }
        let (hit, _) = split_by_color(&self.center.tiles, color);
        if hit.len() == 0 {
            return Err(RulesError::ColorNotPresent);
        }
        match self.players[self.player_index].board.check_placement(row, color) {
            Some(e) => Err(e),
            None => {
                self.take_from_center(color, row);
                Ok(())
            },
        }
    }

    /// The first half of a turn in two steps: chooses display
    /// `factory_index`, which must hold tiles, and waits for a color.
    /// Allowed only while the game waits for a display. On an error nothing changes.
    pub fn pick_factory(&mut self, factory_index: usize) -> (r: Result<(), RulesError>)
        requires
            old(self).wf(),
        ensures
            final(self).wf(),
            final(self).total_tiles() == old(self).total_tiles(),
            ({
                let ok = old(self).phase == GameState::PickingFactory && factory_index < old(
                    self,
                ).factories@.len() && old(self).factories@[factory_index as int].bag.tiles@.len()
                    > 0;
                &&& ok ==> r is Ok && *final(self) == (Game {
                    selected_factory: Some(factory_index),
                    phase: GameState::PickingColor,
                    ..*old(self)
                })
                &&& !ok ==> r == Err::<(), RulesError>(RulesError::InvalidSelection)
                    && *final(self) == *old(self)
            }),
    {
        if self.phase != GameState::PickingFactory || factory_index >= self.factories.len()
            || self.factories[factory_index].bag.tiles.len() == 0 {
            return Err(RulesError::InvalidSelection);
        }
        self.selected_factory = Some(factory_index);
        self.phase = GameState::PickingColor;
        Ok(())
    }

    /// The second half of a turn in two steps: takes every tile of color `c`
    /// from the chosen display into row `row`, exactly as `select_factory`
    /// would. Allowed only once a display is chosen. On an error nothing changes.
    pub fn pick_color(&mut self, color: TileColor, row: usize) -> (r: Result<(), RulesError>)
        requires
            old(self).wf(),
        ensures
            final(self).wf(),
            final(self).total_tiles() == old(self).total_tiles(),
            old(self).selected_factory is None ==> r == Err::<(), RulesError>(
                RulesError::InvalidSelection,
            ) && *final(self) == *old(self),
            old(self).selected_factory matches Some(i) ==> {
                &&& old(self).factory_error(i as int, color, row as int) matches Some(e) ==> r
                    == Err::<(), RulesError>(e) && *final(self) == *old(self)
                &&& old(self).factory_error(i as int, color, row as int) is None ==> r is Ok
                    && Game::took_from_factory(old(self), final(self), i as int, color, row as int)
            },
            r is Ok ==> final(self).player_index == (old(self).player_index + 1) % (old(
                self,
            ).players@.len() as int),
    {
        match self.selected_factory {
            None => Err(RulesError::InvalidSelection),
            Some(i) => match self.check_factory(i, color, row) {
                Some(e) => Err(e),
                None => {
                    self.take_from_factory(i, color, row);
                    Ok(())
                },
            },
        }
    }

    /// Whether every display and the center are empty, which ends the round.
    pub fn is_round_over(&self) -> (r: bool)
        ensures
            r == self.round_over(),
    {
        if self.center.tiles.len() > 0 {
            return false;
        }
        let mut i: usize = 0;
        while i < self.factories.len()
            invariant
                i <= self.factories@.len(),
                self.center.tiles@.len() == 0,
                forall|j: int| 0 <= j < i ==> (#[trigger] self.factories@[j]).bag.tiles@.len() == 0,
            decreases self.factories@.len() - i,
        {
            if self.factories[i].bag.tiles.len() > 0 {
                return false;
            }
            i = i + 1;
        }
        true
    }

    /// The player whose turn it is.
    pub fn current_player(&self) -> (r: &Player)
        requires
            self.wf(),
        ensures
            *r == self.players@[self.player_index as int],
    {
        &self.players[self.player_index]
    }
}

} // verus!
