use vstd::prelude::*;

verus! {

/// Every way in which a rules operation can refuse its input.
#[derive(Debug, Clone, Copy, PartialEq, Eq, Structural)]
pub enum RulesError {
    /// A game needs two, three or four players.
    InvalidPlayerCount,
    /// A factory index out of range, an empty source or a row index out of range,
    /// or an action that the current phase does not allow.
    InvalidSelection,
    /// The chosen source holds no tile of the requested color.
    ColorNotPresent,
    /// The target row already holds tiles of another color.
    ColorMismatch,
    /// The bag holds fewer tiles than a draw asks for.
    InsufficientTiles,
}

} // verus!
