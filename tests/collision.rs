use tilegame::util::{clamp_coord, collide_rects, intersects, Rect, MAX_COORD};
use tilegame::world::Direction;

fn square(left: i128, top: i128) -> Rect {
    Rect::new(left, top, 32, 32)
}

#[test]
fn apart_boxes_need_no_correction() {
    let a = square(0, 0);
    for d in [Direction::North, Direction::East, Direction::South, Direction::West] {
        assert_eq!(collide_rects(&a, &square(100, 100), d), None);
        assert_eq!(collide_rects(&a, &square(0, 40), d), None);
    }
}

#[test]
fn touching_boxes_do_not_intersect() {
    let a = square(0, 0);
    assert!(!intersects(&a, &square(32, 0)));
    assert!(!intersects(&a, &square(0, 32)));
    assert!(!intersects(&a, &square(32, 32)));
    assert!(!intersects(&a, &square(-32, 0)));
    assert_eq!(collide_rects(&a, &square(32, 0), Direction::East), None);
    assert!(intersects(&a, &square(31, 31)));
}

#[test]
fn empty_box_intersects_nothing() {
    let dot = Rect::new(10, 10, 0, 0);
    assert!(!intersects(&dot, &square(0, 0)));
}

#[test]
fn east_overlap_is_pushed_west() {
    let moving = Rect::new(20, 5, 32, 32);
    let wall = square(40, 0);
    assert_eq!(collide_rects(&moving, &wall, Direction::East), Some((8, 5)));
}

#[test]
fn west_overlap_is_pushed_east() {
    let moving = Rect::new(60, 5, 32, 32);
    let wall = square(40, 0);
    assert_eq!(collide_rects(&moving, &wall, Direction::West), Some((72, 5)));
}

#[test]
fn north_overlap_is_pushed_down() {
    let moving = Rect::new(10, 20, 32, 32);
    let wall = square(0, 0);
    assert_eq!(collide_rects(&moving, &wall, Direction::North), Some((10, 32)));
}

#[test]
fn south_overlap_is_pushed_up() {
    let moving = Rect::new(10, 20, 32, 48);
    let wall = square(0, 60);
    assert_eq!(collide_rects(&moving, &wall, Direction::South), Some((10, 12)));
}

#[test]
fn correction_moves_against_travel_and_separates() {
    let moving = Rect::new(20, 20, 32, 32);
    let wall = square(30, 30);
    let cases = [
        (Direction::North, (20, 62)),
        (Direction::East, (-2, 20)),
        (Direction::South, (20, -2)),
        (Direction::West, (62, 20)),
    ];
    for (d, expected) in cases {
        let (x, y) = collide_rects(&moving, &wall, d).unwrap();
        assert_eq!((x, y), expected);
        match d {
            Direction::North => assert!(y > moving.top && y >= wall.top + wall.height),
            Direction::South => assert!(y < moving.top && y + moving.height <= wall.top),
            Direction::East => assert!(x < moving.left && x + moving.width <= wall.left),
            Direction::West => assert!(x > moving.left && x >= wall.left + wall.width),
        }
    }
}

#[test]
fn second_resolution_finds_nothing() {
    let moving = Rect::new(20, 20, 32, 32);
    let wall = square(30, 30);
    for d in [Direction::North, Direction::East, Direction::South, Direction::West] {
        let (x, y) = collide_rects(&moving, &wall, d).unwrap();
        let corrected = Rect::new(x, y, moving.width, moving.height);
        assert_eq!(collide_rects(&corrected, &wall, d), None);
    }
}

#[test]
fn clamp_keeps_the_playable_range() {
    assert_eq!(clamp_coord(5), 5);
    assert_eq!(clamp_coord(MAX_COORD + 1), MAX_COORD);
    assert_eq!(clamp_coord(-MAX_COORD - 7), -MAX_COORD);
}
