use vstd::prelude::*;

verus! {

/// The five tile colors.
#[derive(Debug, Clone, Copy, PartialEq, Eq, Structural)]
pub enum TileColor {
    Black,
    White,
    Red,
    Green,
    Blue,
}

/// The color that number key `key` stands for: 1 black, 2 white, 3 red,
/// 4 green, 5 blue.
pub open spec fn key_color(key: u8) -> Option<TileColor> {
    if key == 1 {
        Some(TileColor::Black)
    } else if key == 2 {
        Some(TileColor::White)
    } else if key == 3 {
        Some(TileColor::Red)
    } else if key == 4 {
        Some(TileColor::Green)
    } else if key == 5 {
        Some(TileColor::Blue)
    } else {
        None
    }
}

impl TileColor {
    /// The color that number key `key` stands for, if any.
    pub fn from_key(key: u8) -> (r: Option<TileColor>)
        ensures
            r == key_color(key),
    {
        match key {
            1 => Some(TileColor::Black),
            2 => Some(TileColor::White),
            3 => Some(TileColor::Red),
            4 => Some(TileColor::Green),
            5 => Some(TileColor::Blue),
            _ => None,
        }
    }
}

/// One tile; it carries nothing but its color.
#[derive(Debug, Clone, Copy, PartialEq, Eq, Structural)]
pub struct Tile {
    pub color: TileColor,
}

impl Tile {
    pub fn new(color: TileColor) -> (r: Tile)
        ensures
            r.color == color,
    {
        Tile { color }
    }
}

/// The tiles of `s` that have color `c`, in their order in `s`.
pub open spec fn matching(s: Seq<Tile>, c: TileColor) -> Seq<Tile>
    decreases s.len(),
{
    if s.len() == 0 {
        Seq::empty()
    } else if s.last().color == c {
        matching(s.drop_last(), c).push(s.last())
    } else {
        matching(s.drop_last(), c)
    }
}

/// The tiles of `s` that do not have color `c`, in their order in `s`.
pub open spec fn others(s: Seq<Tile>, c: TileColor) -> Seq<Tile>
    decreases s.len(),
{
    if s.len() == 0 {
        Seq::empty()
    } else if s.last().color != c {
        others(s.drop_last(), c).push(s.last())
    } else {
        others(s.drop_last(), c)
    }
}

/// How many tiles of color `c` are in `s`.
pub open spec fn count_color(s: Seq<Tile>, c: TileColor) -> nat {
    matching(s, c).len()
}

/// `n` tiles, all of color `c`.
pub open spec fn tiles_of(c: TileColor, n: nat) -> Seq<Tile> {
    Seq::new(n, |i: int| Tile { color: c })
}

/// Splitting a sequence by a color loses no tile and makes none up.
pub proof fn lemma_split_len(s: Seq<Tile>, c: TileColor)
    ensures
        matching(s, c).len() + others(s, c).len() == s.len(),
        matching(s, c) =~= tiles_of(c, matching(s, c).len()),
    decreases s.len(),
{
    if s.len() > 0 {
        lemma_split_len(s.drop_last(), c);
    }
}

/// The tiles of `s` that have color `c`, and the others, each in their order in `s`.
pub fn split_by_color(s: &Vec<Tile>, c: TileColor) -> (r: (Vec<Tile>, Vec<Tile>))
    ensures
        r.0@ == matching(s@, c),
        r.1@ == others(s@, c),
{
    let mut hit: Vec<Tile> = Vec::new();
    let mut miss: Vec<Tile> = Vec::new();
    let mut i: usize = 0;
    while i < s.len()
        invariant
            i <= s@.len(),
            hit@ == matching(s@.take(i as int), c),
            miss@ == others(s@.take(i as int), c),
        decreases s@.len() - i,
    {
        let t = s[i];
        assert(s@.take(i as int + 1).drop_last() =~= s@.take(i as int));
        if t.color == c {
            hit.push(t);
        } else {
            miss.push(t);
        }
        i = i + 1;
    }
    assert(s@.take(s@.len() as int) =~= s@);
    (hit, miss)
}

} // verus!
