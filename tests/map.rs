use tilegame::util::Rect;
use tilegame::world::{parse_map, Direction, Tile, TileKind, TileMap};

fn tile(row: usize, col: usize, kind: TileKind) -> Tile {
    Tile { row, col, kind }
}

#[test]
fn three_row_map() {
    let tiles = parse_map("--\n@-\n--");
    assert_eq!(
        tiles,
        vec![
            tile(0, 0, TileKind::Wall),
            tile(0, 1, TileKind::Wall),
            tile(1, 0, TileKind::PlayerStart),
            tile(1, 1, TileKind::Wall),
            tile(2, 0, TileKind::Wall),
            tile(2, 1, TileKind::Wall),
        ]
    );
    let starts: Vec<&Tile> = tiles.iter().filter(|t| t.kind == TileKind::PlayerStart).collect();
    assert_eq!(starts.len(), 1);
}

#[test]
fn other_characters_hold_no_tile() {
    let tiles = parse_map(" x|\n\n m.\r\n");
    assert_eq!(tiles, vec![tile(0, 2, TileKind::Wall), tile(2, 1, TileKind::EnemyStart)]);
}

#[test]
fn empty_map_has_no_tiles() {
    assert!(parse_map("").is_empty());
    assert!(parse_map("\n\n").is_empty());
}

#[test]
fn columns_count_characters_not_bytes() {
    let tiles = parse_map("é-");
    assert_eq!(tiles, vec![tile(0, 1, TileKind::Wall)]);
}

#[test]
fn tile_bounds_follow_the_grid() {
    let map = TileMap::new(parse_map("--\n-"), 32, 16);
    assert_eq!(map.get_tile_bounds(&map.tiles[2]), Rect::new(0, 16, 32, 16));
    assert_eq!(map.get_tile_bounds(&map.tiles[1]), Rect::new(32, 0, 32, 16));
}

#[test]
fn tile_lookup() {
    let map = TileMap::new(parse_map("-m\n@"), 32, 32);
    assert_eq!(map.tile_at(0, 1), tile(0, 1, TileKind::EnemyStart));
    assert_eq!(map.tile_at(1, 0), tile(1, 0, TileKind::PlayerStart));
    assert_eq!(map.tile_at(5, 9), tile(5, 9, TileKind::Empty));
}

#[test]
fn walls_are_resolved_one_after_the_other() {
    // Two walls side by side: pushed out of the first, the box lands in the
    // second and is pushed out of that one too.
    let map = TileMap::new(parse_map("--"), 32, 32);
    let moving = Rect::new(10, 0, 32, 32);
    assert_eq!(map.settle_rect(moving, Direction::West), Rect::new(64, 0, 32, 32));
    // In map order, a box moving east meets the first wall before it is
    // pushed into it, so only the second one acts.
    let east = Rect::new(40, 0, 32, 32);
    assert_eq!(map.settle_rect(east, Direction::East), Rect::new(0, 0, 32, 32));
}

#[test]
fn only_walls_stop_a_box() {
    let map = TileMap::new(parse_map("@m"), 32, 32);
    let moving = Rect::new(10, 0, 32, 32);
    assert_eq!(map.settle_rect(moving, Direction::East), moving);
}

#[test]
fn unknown_character_leaves_its_cell_empty() {
    let tiles = parse_map("x-");
    assert_eq!(tiles, vec![tile(0, 1, TileKind::Wall)]);
    let map = TileMap::new(tiles, 32, 32);
    assert_eq!(map.tile_at(0, 0).kind, TileKind::Empty);
}
