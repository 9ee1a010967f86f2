use azul::bag::{COLORS, TILES_PER_COLOR};
use azul::factory::{factories_count, FACTORY_TILES};
use azul::tile::split_by_color;
use azul::{Bag, Board, FactoryBundle, Player, Row, RulesError, Tile, TileColor};

fn count(tiles: &[Tile], c: TileColor) -> usize {
    tiles.iter().filter(|t| t.color == c).count()
}

#[test]
fn tile_new_keeps_color() {
    assert_eq!(Tile::new(TileColor::Green).color, TileColor::Green);
    assert_eq!(Tile::new(TileColor::Black).color, TileColor::Black);
}

#[test]
fn player_new_has_empty_board() {
    let p = Player::new("Player 1".to_string());
    assert_eq!(p.name, "Player 1");
    assert_eq!(p.board.rows.len(), 5);
    for (i, row) in p.board.rows.iter().enumerate() {
        assert_eq!(row.size, i + 1);
        assert_eq!(row.filled, 0);
        assert_eq!(row.color, None);
    }
    assert!(p.board.floor.is_empty());
}

#[test]
fn bag_new_holds_every_color_equally() {
    let bag = Bag::new(COLORS, TILES_PER_COLOR, 42);
    assert_eq!(bag.len(), 100);
    for c in [TileColor::Black, TileColor::White, TileColor::Red, TileColor::Green, TileColor::Blue] {
        assert_eq!(count(&bag.tiles, c), 20);
    }
}

#[test]
fn bag_new_with_fewer_colors() {
    let bag = Bag::new(2, 3, 7);
    assert_eq!(bag.len(), 6);
    assert_eq!(count(&bag.tiles, TileColor::Red), 3);
    assert_eq!(count(&bag.tiles, TileColor::Green), 3);
    assert_eq!(count(&bag.tiles, TileColor::Blue), 0);
    assert_eq!(Bag::new(0, 20, 1).len(), 0);
}

#[test]
fn bag_same_seed_same_order() {
    let a = Bag::new(COLORS, TILES_PER_COLOR, 9);
    let b = Bag::new(COLORS, TILES_PER_COLOR, 9);
    assert_eq!(a.tiles, b.tiles);
}

#[test]
fn bag_shuffle_reorders() {
    // a hundred tiles in fill order: red first, black last
    let bags: Vec<Bag> = (0..4).map(|s| Bag::new(COLORS, TILES_PER_COLOR, s)).collect();
    assert!(bags.iter().any(|b| b.tiles[0].color != TileColor::Red || b.tiles[99].color != TileColor::Black));
}

#[test]
fn bag_draw_takes_from_front() {
    let mut bag = Bag::from_tiles(vec![
        Tile::new(TileColor::Red),
        Tile::new(TileColor::Blue),
        Tile::new(TileColor::White),
    ]);
    let drawn = bag.draw(2).unwrap();
    assert_eq!(drawn, vec![Tile::new(TileColor::Red), Tile::new(TileColor::Blue)]);
    assert_eq!(bag.tiles, vec![Tile::new(TileColor::White)]);
    assert_eq!(bag.draw(0).unwrap(), vec![]);
    assert_eq!(bag.len(), 1);
}

#[test]
fn bag_draw_too_many_fails_unchanged() {
    let mut bag = Bag::from_tiles(vec![Tile::new(TileColor::Red)]);
    assert_eq!(bag.draw(2), Err(RulesError::InsufficientTiles));
    assert_eq!(bag.tiles, vec![Tile::new(TileColor::Red)]);
    assert!(!bag.is_empty());
}

#[test]
fn factories_count_table() {
    assert_eq!(factories_count(2), Ok(5));
    assert_eq!(factories_count(3), Ok(7));
    assert_eq!(factories_count(4), Ok(9));
    assert_eq!(factories_count(0), Err(RulesError::InvalidPlayerCount));
    assert_eq!(factories_count(1), Err(RulesError::InvalidPlayerCount));
    assert_eq!(factories_count(5), Err(RulesError::InvalidPlayerCount));
}

#[test]
fn replenish_takes_four_tiles() {
    let mut bag = Bag::new(COLORS, TILES_PER_COLOR, 3);
    let front: Vec<Tile> = bag.tiles[..4].to_vec();
    let f = FactoryBundle::replenish(6, &mut bag).unwrap();
    assert_eq!(f.len(), FACTORY_TILES);
    assert_eq!(f.factory.0, 6);
    assert_eq!(f.tiles(), &front);
    assert_eq!(bag.len(), 96);
}

#[test]
fn replenish_from_short_bag_fails() {
    let mut bag = Bag::from_tiles(vec![Tile::new(TileColor::Red); 3]);
    assert!(matches!(FactoryBundle::replenish(0, &mut bag), Err(RulesError::InsufficientTiles)));
    assert_eq!(bag.len(), 3);
}

#[test]
fn split_by_color_keeps_order() {
    let v = vec![
        Tile::new(TileColor::Red),
        Tile::new(TileColor::Blue),
        Tile::new(TileColor::Red),
        Tile::new(TileColor::Green),
    ];
    let (hit, miss) = split_by_color(&v, TileColor::Red);
    assert_eq!(hit, vec![Tile::new(TileColor::Red); 2]);
    assert_eq!(miss, vec![Tile::new(TileColor::Blue), Tile::new(TileColor::Green)]);
}

#[test]
fn row_fills_up_to_size() {
    let mut r = Row::new(3);
    assert_eq!(r.add(TileColor::Red, 2), Ok(0));
    assert_eq!((r.filled, r.color), (2, Some(TileColor::Red)));
    assert_eq!(r.add(TileColor::Red, 4), Ok(3));
    assert_eq!(r.filled, 3);
    assert_eq!(r.add(TileColor::Red, 0), Ok(0));
    assert_eq!(r.filled, 3);
}

#[test]
fn row_refuses_second_color() {
    let mut r = Row::new(4);
    assert_eq!(r.add(TileColor::Blue, 1), Ok(0));
    assert_eq!(r.add(TileColor::White, 1), Err(RulesError::ColorMismatch));
    assert_eq!((r.filled, r.color), (1, Some(TileColor::Blue)));
}

#[test]
fn row_add_nothing_keeps_it_open() {
    let mut r = Row::new(2);
    assert_eq!(r.add(TileColor::Blue, 0), Ok(0));
    assert_eq!(r.color, None);
    assert_eq!(r.add(TileColor::Red, 1), Ok(0));
}

#[test]
fn board_place_sends_excess_to_floor() {
    let mut b = Board::new();
    assert_eq!(b.place(0, TileColor::Black, 3), Ok(()));
    assert_eq!(b.rows[0].filled, 1);
    assert_eq!(b.floor, vec![Tile::new(TileColor::Black); 2]);
    assert_eq!(b.place(5, TileColor::Black, 1), Err(RulesError::InvalidSelection));
    assert_eq!(b.place(0, TileColor::Red, 1), Err(RulesError::ColorMismatch));
    assert_eq!(b.check_placement(4, TileColor::Red), None);
    assert_eq!(b.check_placement(0, TileColor::Red), Some(RulesError::ColorMismatch));
}

#[test]
fn color_keys() {
    assert_eq!(TileColor::from_key(1), Some(TileColor::Black));
    assert_eq!(TileColor::from_key(2), Some(TileColor::White));
    assert_eq!(TileColor::from_key(3), Some(TileColor::Red));
    assert_eq!(TileColor::from_key(4), Some(TileColor::Green));
    assert_eq!(TileColor::from_key(5), Some(TileColor::Blue));
    assert_eq!(TileColor::from_key(0), None);
    assert_eq!(TileColor::from_key(6), None);
}

#[test]
fn spawn_factories_deals_in_order() {
    let order: Vec<Tile> = (0..30)
        .map(|i| Tile::new(if i % 3 == 0 { TileColor::Red } else { TileColor::White }))
        .collect();
    let mut bag = Bag::from_tiles(order.clone());
    let fs = azul::factory::spawn_factories(&mut bag, 2).unwrap();
    assert_eq!(fs.len(), 5);
    for (j, f) in fs.iter().enumerate() {
        assert_eq!(f.factory.0, j);
        assert_eq!(f.tiles(), &order[4 * j..4 * j + 4].to_vec());
    }
    assert_eq!(bag.tiles, order[20..].to_vec());
}

#[test]
fn spawn_factories_refuses_bad_input() {
    let mut bag = Bag::from_tiles(vec![Tile::new(TileColor::Blue); 27]);
    assert!(matches!(azul::factory::spawn_factories(&mut bag, 1), Err(RulesError::InvalidPlayerCount)));
    assert!(matches!(azul::factory::spawn_factories(&mut bag, 3), Err(RulesError::InsufficientTiles)));
    assert!(matches!(azul::factory::spawn_factories(&mut bag, 4), Err(RulesError::InsufficientTiles)));
    assert_eq!(bag.len(), 27);
}
