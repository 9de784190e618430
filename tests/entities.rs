use tilegame::components::{Bounded, Item, Mobile};
use tilegame::entity::Entity;
use tilegame::moblin::Moblin;
use tilegame::player::Player;
use tilegame::sword::{Sword, SWORD_DAMAGE};
use tilegame::util::Rect;
use tilegame::world::{parse_map, Direction, Tile, TileKind, TileMap};

fn open_map() -> TileMap {
    TileMap::new(Vec::new(), 32, 32)
}

#[test]
fn movement_covers_whole_pixels_and_keeps_the_rest() {
    let mut e = Entity::new(100, 100, 200, 32, 32);
    e.move_in(Direction::East, 16_666_666, &open_map());
    assert_eq!((e.x, e.frac_x, e.y, e.frac_y), (103, 333_333_200, 100, 0));
    e.move_in(Direction::North, 16_666_666, &open_map());
    assert_eq!((e.x, e.frac_x, e.y, e.frac_y), (103, 333_333_200, 96, 666_666_800));
    e.move_in(Direction::South, 2_000_000, &open_map());
    assert_eq!((e.x, e.frac_x, e.y, e.frac_y), (103, 333_333_200, 97, 66_666_800));
    e.move_in(Direction::West, 1_000_000_000, &open_map());
    assert_eq!((e.x, e.frac_x, e.y, e.frac_y), (-97, 333_333_200, 97, 66_666_800));
}

#[test]
fn parts_of_a_pixel_stay_on_their_axis() {
    // 0.9 px east, then 0.2 px north: the exact position is (100.9, 99.8).
    let mut e = Entity::new(100, 100, 200, 32, 32);
    e.move_in(Direction::East, 4_500_000, &open_map());
    e.move_in(Direction::North, 1_000_000, &open_map());
    assert_eq!((e.x, e.frac_x, e.y, e.frac_y), (100, 900_000_000, 99, 800_000_000));
    // 0.9 px east, then 0.9 px west: back where it started.
    let mut f = Entity::new(100, 100, 200, 32, 32);
    f.move_in(Direction::East, 4_500_000, &open_map());
    f.move_in(Direction::West, 4_500_000, &open_map());
    assert_eq!((f.x, f.frac_x, f.y, f.frac_y), (100, 0, 100, 0));
}

#[test]
fn a_wall_leaves_the_body_flush() {
    let map = TileMap::new(parse_map("  -"), 32, 32);
    let mut e = Entity::new(20, 0, 200, 32, 32);
    e.move_in(Direction::South, 1_000_000, &map);
    e.move_in(Direction::East, 101_000_000, &map);
    assert_eq!((e.x, e.frac_x, e.y, e.frac_y), (32, 0, 0, 200_000_000));
}

#[test]
fn slow_entities_still_move() {
    let mut m = Moblin::new(0, 0, 32, 32);
    for _ in 0..60 {
        m.move_in(Direction::South, 16_666_667, &open_map());
    }
    assert_eq!(m.get_bounds().top, 50);
}

#[test]
fn moving_into_a_wall_stops_at_its_side() {
    let map = TileMap::new(parse_map("  -"), 32, 32);
    let mut e = Entity::new(20, 0, 200, 32, 32);
    e.move_in(Direction::East, 100_000_000, &map);
    assert_eq!((e.x, e.y), (32, 0));
    let mut p = Player::new(10, 0, 200, 32, 32);
    p.move_in(Direction::West, 0, &map);
    assert_eq!(p.get_bounds(), Rect::new(10, 0, 32, 32));
    let mut q = Player::new(40, 0, 200, 32, 32);
    q.move_in(Direction::East, 50_000_000, &map);
    assert_eq!(q.get_bounds(), Rect::new(32, 0, 32, 32));
}

#[test]
fn set_x_and_set_y_move_only_one_axis() {
    let mut e = Entity::new(1, 2, 10, 8, 9);
    e.set_x(50);
    assert_eq!(e.get_bounds(), Rect::new(50, 2, 8, 9));
    e.set_y(-7);
    assert_eq!(e.get_bounds(), Rect::new(50, -7, 8, 9));
    e.set_bounds(3, 4, 100, 100);
    assert_eq!(e.get_bounds(), Rect::new(3, 4, 8, 9));
}

#[test]
fn damage_lowers_health() {
    let mut m = Moblin::new(0, 0, 32, 32);
    assert_eq!((m.health, m.max_health), (100, 100));
    m.damage(30);
    assert_eq!(m.health, 70);
    m.damage(-5);
    assert_eq!(m.health, 75);
    m.health = i32::MIN + 3;
    m.damage(10);
    assert_eq!(m.health, i32::MIN);
}

#[test]
fn enemy_first_heads_for_its_first_goal() {
    let map = TileMap::new(Vec::new(), 32, 32);
    let mut m = Moblin::new(0, 7 * 32, 32, 32);
    assert_eq!(m.direction_to_goal(&map), None);
    m.tick(1_000_000_000, &map, 0, 0);
    assert_eq!(m.goal, Some(Tile { row: 7, col: 18, kind: TileKind::Empty }));
    assert_eq!(m.get_bounds().left, 50);
    assert_eq!(m.direction_to_goal(&map), Some(Direction::East));
}

#[test]
fn enemy_on_its_goal_picks_the_next_one() {
    let map = TileMap::new(parse_map("\n\n\n\n\n\n\n\n\n\n\n\n               m"), 32, 32);
    let mut m = Moblin::new(18 * 32, 7 * 32, 32, 32);
    m.tick(1_000, &map, 5, -3);
    assert_eq!(m.goal, Some(Tile { row: 12, col: 15, kind: TileKind::EnemyStart }));
    assert_eq!(m.get_bounds(), Rect::new(18 * 32, 7 * 32, 32, 32));
    assert_eq!(m.direction_to_goal(&map), Some(Direction::West));
}

#[test]
fn goal_offsets_wrap_around_the_grid() {
    let map = TileMap::new(Vec::new(), 32, 32);
    let mut m = Moblin::new(18 * 32, 7 * 32, 32, 32);
    m.tick(0, &map, -9, -30);
    let far = Tile { row: usize::MAX - 1, col: usize::MAX - 11, kind: TileKind::Empty };
    assert_eq!(m.goal, Some(far));
    assert_eq!(m.direction_to_goal(&map), Some(Direction::East));
}

#[test]
fn enemy_walks_down_then_up_to_reach_goal() {
    let map = TileMap::new(Vec::new(), 32, 32);
    let mut m = Moblin::new(18 * 32, 0, 32, 32);
    m.tick(0, &map, 0, 0);
    assert_eq!(m.direction_to_goal(&map), Some(Direction::South));
    let mut n = Moblin::new(18 * 32, 400, 32, 32);
    n.tick(0, &map, 0, 0);
    assert_eq!(n.direction_to_goal(&map), Some(Direction::North));
}

#[test]
fn sword_hurts_what_it_overlaps() {
    let mut sword = Sword::new(0, 0, 16, 16);
    sword.activate();
    let mut enemies = vec![Moblin::new(8, 8, 32, 32), Moblin::new(100, 0, 32, 32)];
    sword.tick(0, &mut enemies);
    assert_eq!(enemies[0].health, 100 - SWORD_DAMAGE);
    assert_eq!(enemies[1].health, 100);
    sword.tick(0, &mut enemies);
    assert_eq!(enemies[0].health, 100 - 2 * SWORD_DAMAGE);
}

#[test]
fn sword_touching_an_enemy_does_not_hit() {
    let mut sword = Sword::new(0, 0, 16, 16);
    sword.activate();
    let mut enemies = vec![
        Moblin::new(16, 0, 32, 32),
        Moblin::new(0, 16, 32, 32),
        Moblin::new(-32, -32, 32, 32),
    ];
    sword.tick(0, &mut enemies);
    for e in &enemies {
        assert_eq!(e.health, 100);
    }
}

#[test]
fn sword_put_away_does_not_hit() {
    let mut sword = Sword::new(0, 0, 16, 16);
    let mut enemies = vec![Moblin::new(0, 0, 32, 32)];
    sword.tick(0, &mut enemies);
    assert_eq!(enemies[0].health, 100);
    sword.activate();
    sword.deactivate();
    sword.tick(0, &mut enemies);
    assert_eq!(enemies[0].health, 100);
}

#[test]
fn player_switches_and_places_its_item() {
    let mut p = Player::new(100, 200, 200, 32, 32);
    p.set_active_item_state(true);
    assert!(p.active_item.is_none());
    p.set_active_item(Sword::new(0, 0, 16, 16));
    p.set_active_item_state(true);
    assert!(p.active_item.unwrap().active);
    p.place_item();
    let s = p.active_item.unwrap();
    assert_eq!((s.x, s.y), (109, 225));
    p.set_active_item_state(false);
    assert!(!p.active_item.unwrap().active);
}

#[test]
fn player_tick_uses_the_item() {
    let mut p = Player::new(0, 0, 200, 32, 32);
    let mut enemies = vec![Moblin::new(10, 30, 32, 32)];
    p.tick(0, &mut enemies);
    assert_eq!(enemies[0].health, 100);
    p.set_active_item(Sword::new(0, 0, 16, 16));
    p.set_active_item_state(true);
    p.place_item();
    p.tick(0, &mut enemies);
    assert_eq!(enemies[0].health, 90);
}
