use tilegame::moblin::Moblin;
use tilegame::sword::Sword;
use tilegame::util::Rect;
use tilegame::world::{sweep_dead, Direction, SpriteSizes, Tile, TileKind, World, PLAYER_SPEED};

fn sizes() -> SpriteSizes {
    SpriteSizes {
        tile_width: 32,
        tile_height: 32,
        player_width: 24,
        player_height: 30,
        enemy_width: 28,
        enemy_height: 28,
    }
}

fn with_health(h: i32, x: i128) -> Moblin {
    let mut m = Moblin::new(x, 0, 32, 32);
    m.health = h;
    m
}

#[test]
fn sweep_keeps_the_living_in_order() {
    let mut enemies = vec![with_health(0, 1), with_health(5, 2), with_health(-3, 3)];
    sweep_dead(&mut enemies);
    assert_eq!(enemies.len(), 1);
    assert_eq!((enemies[0].health, enemies[0].entity.x), (5, 2));
}

#[test]
fn sweep_keeps_order_of_several() {
    let mut enemies = vec![
        with_health(1, 1),
        with_health(0, 2),
        with_health(7, 3),
        with_health(-1, 4),
        with_health(3, 5),
    ];
    sweep_dead(&mut enemies);
    let xs: Vec<i128> = enemies.iter().map(|e| e.entity.x).collect();
    assert_eq!(xs, vec![1, 3, 5]);
    let mut none: Vec<Moblin> = Vec::new();
    sweep_dead(&mut none);
    assert!(none.is_empty());
}

#[test]
fn world_from_text_places_player_and_enemies() {
    let w = World::new_from_text("|||\n|@m\n| m", sizes());
    assert_eq!(w.map.tiles.len(), 8);
    assert_eq!((w.player.entity.x, w.player.entity.y), (32, 32));
    assert_eq!((w.player.entity.width, w.player.entity.height), (24, 30));
    assert_eq!(w.player.entity.speed, PLAYER_SPEED);
    assert!(w.player.active_item.is_none());
    assert_eq!(w.enemies.len(), 2);
    assert_eq!((w.enemies[0].entity.x, w.enemies[0].entity.y), (64, 32));
    assert_eq!((w.enemies[1].entity.x, w.enemies[1].entity.y), (64, 64));
    assert_eq!(w.enemies[1].entity.width, 28);
    assert_eq!(w.tile_at(2, 2), Tile { row: 2, col: 2, kind: TileKind::EnemyStart });
    assert_eq!(w.get_tile_bounds(&w.tile_at(1, 0)), Rect::new(0, 32, 32, 32));
}

#[test]
fn world_without_start_puts_player_at_origin() {
    let w = World::new_from_text("--", sizes());
    assert_eq!((w.player.entity.x, w.player.entity.y), (0, 0));
    assert!(w.enemies.is_empty());
    let last = World::new_from_text("@ @", sizes());
    assert_eq!((last.player.entity.x, last.player.entity.y), (64, 0));
}

#[test]
fn player_is_stopped_by_walls() {
    let mut w = World::new_from_text("-@ -", sizes());
    w.move_player(Direction::West, 100_000_000);
    assert_eq!((w.player.entity.x, w.player.entity.y), (32, 0));
    w.move_player(Direction::East, 250_000_000);
    assert_eq!((w.player.entity.x, w.player.entity.y), (72, 0));
    // A step longer than a wall is thick passes through it.
    w.move_player(Direction::East, 1_000_000_000);
    assert_eq!((w.player.entity.x, w.player.entity.y), (272, 0));
    let mut other = Sword::new(0, 0, 16, 16);
    w.collide_entity_with_tiles(&mut other, Direction::North);
    assert_eq!((other.x, other.y), (0, 32));
}

#[test]
fn tick_hits_moves_and_sweeps() {
    let mut w = World::new_from_text("@m  m", sizes());
    w.player.set_active_item(Sword::new(0, 0, 16, 16));
    w.player.set_active_item_state(true);
    w.enemies[0].health = 10;
    // The sword at (9, 25) reaches the first enemy at (32, 0) only if moved there.
    w.player.active_item = Some(Sword { x: 40, y: 5, ..w.player.active_item.unwrap() });
    w.tick(1_000_000_000, &vec![(0, 0), (0, 0)]);
    assert_eq!(w.enemies.len(), 1);
    assert_eq!(w.enemies[0].health, 100);
    assert_eq!(w.enemies[0].goal, Some(Tile { row: 7, col: 18, kind: TileKind::Empty }));
    assert_eq!((w.enemies[0].entity.x, w.enemies[0].entity.y), (178, 0));
    assert_eq!((w.player.entity.x, w.player.entity.y), (0, 0));
}
