use vstd::prelude::*;

use crate::error::RulesError;
use crate::tally::{lemma_sum_const, lemma_sum_update, sum};
use crate::tile::{tiles_of, Tile, TileColor};

verus! {

/// The number of pattern lines on a board.
pub const ROWS: usize = 5;

/// A pattern line: up to `size` tiles, all of one color.
#[derive(Debug, Clone, Copy, PartialEq, Eq, Structural)]
pub struct Row {
    pub color: Option<TileColor>,
    pub filled: usize,
    pub size: usize,
}

impl Row {
    /// Never fuller than its size, and locked to a color exactly when it holds tiles.
    pub open spec fn wf(self) -> bool {
        &&& 1 <= self.size <= ROWS
        &&& self.filled <= self.size
        &&& (self.filled == 0 <==> self.color is None)
    }

    /// Whether tiles of color `c` may be added: the row is empty or holds `c`.
    pub open spec fn accepts(self, c: TileColor) -> bool {
        self.filled == 0 || self.color == Some(c)
    }

    /// The row after `k` tiles of color `c` were offered to it: it fills up to its size.
    pub open spec fn after_add(self, c: TileColor, k: nat) -> Row {
        Row {
            color: if k > 0 {
                Some(c)
            } else {
                self.color
            },
            filled: if self.filled + k <= self.size {
                (self.filled + k) as usize
            } else {
                self.size
            },
            size: self.size,
        }
    }

    /// How many of `k` offered tiles do not fit into the row.
    pub open spec fn overflow(self, k: nat) -> nat {
        if self.filled + k <= self.size {
            0
        } else {
            (self.filled + k - self.size) as nat
        }
    }

    /// An empty row of the given size.
    pub fn new(size: usize) -> (r: Row)
        requires
            1 <= size <= ROWS,
        ensures
            r.wf(),
            r.size == size,
            r.filled == 0,
            r.color is None,
    {
        Row { color: None, filled: 0, size }
    }

    /// Adds `k` tiles of color `c`; those beyond the row's size are returned
    /// as a count. A row that holds another color refuses them and stays as it was.
    pub fn add(&mut self, c: TileColor, k: usize) -> (r: Result<usize, RulesError>)
        requires
            old(self).wf(),
        ensures
            final(self).wf(),
            old(self).accepts(c) ==> r == Ok::<usize, RulesError>(
                old(self).overflow(k as nat) as usize,
            ) && *final(self) == old(self).after_add(c, k as nat),
            !old(self).accepts(c) ==> r == Err::<usize, RulesError>(RulesError::ColorMismatch)
                && *final(self) == *old(self),
    {
        if self.filled > 0 && self.color != Some(c) {
            return Err(RulesError::ColorMismatch);
        }
        if k == 0 {
            return Ok(0);
        }
        let room = self.size - self.filled;
        self.color = Some(c);
        if k <= room {
            self.filled = self.filled + k;
            Ok(0)
        } else {
            self.filled = self.size;
            Ok(k - room)
        }
    }
}

/// How many tiles a sequence of rows holds.
pub open spec fn rows_filled(rows: Seq<Row>) -> int {
    sum(rows.map_values(|r: Row| r.filled as int))
}

/// A player's board: five pattern lines of sizes one to five, and the floor,
/// which takes the tiles that do not fit into a line.
#[derive(Debug)]
pub struct Board {
    pub rows: Vec<Row>,
    pub floor: Vec<Tile>,
}

impl Board {
    /// Five well-formed rows, row `i` of size `i + 1`.
    pub open spec fn wf(&self) -> bool {
        &&& self.rows@.len() == ROWS
        &&& forall|i: int|
            0 <= i < ROWS ==> (#[trigger] self.rows@[i]).wf() && self.rows@[i].size == i + 1
    }

    /// Whether no tile has been placed yet.
    pub open spec fn is_clear(&self) -> bool {
        &&& forall|i: int| 0 <= i < self.rows@.len() ==> (#[trigger] self.rows@[i]).filled == 0
        &&& self.floor@.len() == 0
    }

    /// How many tiles the board holds, in its rows and on its floor.
    pub open spec fn placed_tiles(&self) -> int {
        rows_filled(self.rows@) + self.floor@.len()
    }

    /// Whether `k` tiles of color `c` may go to row `row`.
    pub open spec fn placement_error(&self, row: int, c: TileColor) -> Option<RulesError> {
        if !(0 <= row < ROWS) {
            Some(RulesError::InvalidSelection)
        } else if !self.rows@[row].accepts(c) {
            Some(RulesError::ColorMismatch)
        } else {
            None
        }
    }

    /// An empty board.
    pub fn new() -> (r: Board)
        ensures
            r.wf(),
            r.is_clear(),
            r.placed_tiles() == 0,
    {
        let mut rows: Vec<Row> = Vec::new();
        let mut i: usize = 0;
        while i < ROWS
            invariant
                i <= ROWS,
                rows@.len() == i,
                forall|j: int|
                    0 <= j < i ==> (#[trigger] rows@[j]).wf() && rows@[j].size == j + 1
                        && rows@[j].filled == 0,
            decreases ROWS - i,
        {
            rows.push(Row::new(i + 1));
            i = i + 1;
        }
        let r = Board { rows, floor: Vec::new() };
        proof {
            let s = r.rows@.map_values(|x: Row| x.filled as int);
            lemma_sum_const(s, 0);
        }
        r
    }

    /// Why `c` tiles may not go to row `row`, if there is a reason.
    pub fn check_placement(&self, row: usize, c: TileColor) -> (r: Option<RulesError>)
        requires
            self.wf(),
        ensures
            r == self.placement_error(row as int, c),
    {
        if row >= ROWS {
            Some(RulesError::InvalidSelection)
        } else if self.rows[row].filled > 0 && self.rows[row].color != Some(c) {
            Some(RulesError::ColorMismatch)
        } else {
            None
        }
    }

    /// Offering `k` tiles to a row and sending what does not fit to the floor
    /// adds exactly `k` tiles to the board.
    pub proof fn lemma_place_adds(&self, row: int, c: TileColor, k: nat)
        requires
            self.wf(),
            0 <= row < ROWS,
        ensures
            rows_filled(self.rows@.update(row, self.rows@[row].after_add(c, k))) + (self.floor@
                + tiles_of(c, self.rows@[row].overflow(k))).len() == self.placed_tiles() + k,
    {
        let f = |x: Row| x.filled as int;
        let next = self.rows@[row].after_add(c, k);
        assert(self.rows@.update(row, next).map_values(f) =~= self.rows@.map_values(f).update(
            row,
            next.filled as int,
        ));
        lemma_sum_update(self.rows@.map_values(f), row, next.filled as int);
    }

    /// Puts `k` tiles of color `c` into row `row`; what does not fit goes to
    /// the floor. On an error the board stays as it was.
    pub fn place(&mut self, row: usize, c: TileColor, k: usize) -> (r: Result<(), RulesError>)
        requires
            old(self).wf(),
        ensures
            final(self).wf(),
            old(self).placement_error(row as int, c) matches Some(e) ==> r == Err::<(), RulesError>(e)
                && *final(self) == *old(self),
            old(self).placement_error(row as int, c) is None ==> {
                &&& r is Ok
                &&& final(self).rows@ == old(self).rows@.update(
                    row as int,
                    old(self).rows@[row as int].after_add(c, k as nat),
                )
                &&& final(self).floor@ == old(self).floor@ + tiles_of(
                    c,
                    old(self).rows@[row as int].overflow(k as nat),
                )
                &&& final(self).placed_tiles() == old(self).placed_tiles() + k
            },
    {
        if row >= ROWS {
            return Err(RulesError::InvalidSelection);
        }
        let mut target = self.rows[row];
        let extra = match target.add(c, k) {
            Ok(extra) => extra,
            Err(e) => {
                return Err(e);
            },
        };
        self.rows.set(row, target);
        let ghost rows1 = self.rows@;
        let ghost floor0 = self.floor@;
        let mut i: usize = 0;
        while i < extra
            invariant
                i <= extra,
                self.rows@ == rows1,
                self.floor@ == floor0 + tiles_of(c, i as nat),
            decreases extra - i,
        {
            self.floor.push(Tile::new(c));
            i = i + 1;
            assert(self.floor@ =~= floor0 + tiles_of(c, i as nat));
        }
        proof {
            old(self).lemma_place_adds(row as int, c, k as nat);
        }
        Ok(())
    }
}

/// A participant: a name and a board.
#[derive(Debug)]
pub struct Player {
    pub name: String,
    pub board: Board,
}

impl Player {
    /// A player with the given name and an empty board.
    pub fn new(name: String) -> (r: Player)
        ensures
            r.name == name,
            r.board.wf(),
            r.board.is_clear(),
            r.board.placed_tiles() == 0,
    {
        Player { name, board: Board::new() }
    }
}

} // verus!
