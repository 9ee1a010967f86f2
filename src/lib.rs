//! Rules engine for the tile-drafting game Azul: the bag, the factory
//! displays, the center pool, the players' pattern lines and the turn
//! state machine that ties them together.

pub mod bag;
pub mod board;
pub mod error;
pub mod factory;
pub mod game;
pub mod tally;
pub mod tile;

pub use error::RulesError;
pub use tile::{Tile, TileColor};
pub use bag::Bag;
pub use board::{Board, Player, Row};
pub use factory::{Center, Factory, FactoryBundle};
pub use game::{Game, GameState};
