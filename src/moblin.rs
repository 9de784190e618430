use vstd::prelude::*;

verus! {

use crate::components::{Bounded, Mobile};
use crate::entity::Entity;
use vstd::arithmetic::div_mod::lemma_fundamental_div_mod_converse;
use crate::util::{in_range, Rect};
use crate::world::{find_tile, Direction, Tile, TileMap};

/// How fast an enemy walks, in pixels per second.
pub const MOBLIN_SPEED: u64 = 50;

/// The health an enemy starts with.
pub const MOBLIN_HEALTH: i32 = 100;

/// The tile that a new enemy first heads for.
pub const FIRST_GOAL_ROW: usize = 7;

pub const FIRST_GOAL_COL: usize = 18;

/// An enemy that wanders from one goal tile to another.
#[derive(Clone, Copy, Debug, PartialEq, Eq, Structural)]
pub struct Moblin {
    pub entity: Entity,
    pub health: i32,
    pub max_health: i32,
    /// The tile the enemy is heading for, once it has one.
    pub goal: Option<Tile>,
}

/// Every enemy of `enemies` is well formed.
pub open spec fn all_wf(enemies: Seq<Moblin>) -> bool {
    forall|i: int| 0 <= i < enemies.len() ==> #[trigger] enemies[i].wf()
}

/// `health` less `amount`, held within the range of an `i32`.
pub open spec fn lessened(health: i32, amount: i32) -> i32 {
    let h = health - amount;
    if h < i32::MIN {
        i32::MIN
    } else if h > i32::MAX {
        i32::MAX
    } else {
        h as i32
    }
}

/// `index` moved by `delta`, wrapping around the range of a `usize`: a
/// step back from the first row or column leads to the far end of the grid.
pub open spec fn shifted(index: usize, delta: i32) -> usize {
    ((index + delta) % (usize::MAX + 1)) as usize
}

/// The direction that leads from a position to a target: across first, then
/// up or down; none once the target is reached.
pub open spec fn heading(dx: int, dy: int) -> Option<Direction> {
    if dx > 0 {
        Some(Direction::East)
    } else if dx < 0 {
        Some(Direction::West)
    } else if dy > 0 {
        Some(Direction::South)
    } else if dy < 0 {
        Some(Direction::North)
    } else {
        None
    }
}

impl Moblin {
    pub open spec fn wf(&self) -> bool {
        self.entity.wf()
    }

    /// A new enemy at `(x, y)`, at full health and with no goal yet.
    pub open spec fn spawned(x: i128, y: i128, width: u32, height: u32) -> Moblin {
        Moblin {
            entity: Entity {
                x,
                y,
                width: width as i128,
                height: height as i128,
                speed: MOBLIN_SPEED,
                frac_x: 0,
                frac_y: 0,
            },
            health: MOBLIN_HEALTH,
            max_health: MOBLIN_HEALTH,
            goal: None,
        }
    }

    pub fn new(x: i128, y: i128, width: u32, height: u32) -> (m: Moblin)
        requires
            in_range(x as int),
            in_range(y as int),
        ensures
            m == Moblin::spawned(x, y, width, height),
            m.wf(),
    {
        Moblin {
            entity: Entity::new(x, y, MOBLIN_SPEED, width, height),
            health: MOBLIN_HEALTH,
            max_health: MOBLIN_HEALTH,
            goal: None,
        }
    }

    /// Takes `amount` off the enemy's health.
    pub fn damage(&mut self, amount: i32)
        ensures
            *final(self) == (Moblin { health: lessened(old(self).health, amount), ..*old(self) }),
    {
        let h: i64 = self.health as i64 - amount as i64;
        self.health = if h < i32::MIN as i64 {
            i32::MIN
        } else if h > i32::MAX as i64 {
            i32::MAX
        } else {
            h as i32
        };
    }

    /// The direction towards the goal tile, if there is a goal and the enemy
    /// is not on it yet.
    pub open spec fn goal_direction(&self, map: TileMap) -> Option<Direction> {
        match self.goal {
            None => None,
            Some(tile) => heading(
                map.bounds_of(tile).left - self.entity.x,
                map.bounds_of(tile).top - self.entity.y,
            ),
        }
    }

    pub fn direction_to_goal(&self, map: &TileMap) -> (d: Option<Direction>)
        requires
            self.wf(),
        ensures
            d == self.goal_direction(*map),
    {
        match self.goal {
            None => None,
            Some(tile) => {
                let bounds = map.get_tile_bounds(&tile);
                let xdist: i128 = bounds.left - self.entity.x;
                let ydist: i128 = bounds.top - self.entity.y;
                if xdist > 0 {
                    Some(Direction::East)
                } else if xdist < 0 {
                    Some(Direction::West)
                } else if ydist > 0 {
                    Some(Direction::South)
                } else if ydist < 0 {
                    Some(Direction::North)
                } else {
                    None
                }
            },
        }
    }

    /// The goal that follows `goal`: the tile `d_row` rows and `d_col`
    /// columns away from it.
    pub open spec fn next_goal(goal: Tile, map: TileMap, d_row: i32, d_col: i32) -> Tile {
        find_tile(map.tiles@, shifted(goal.row, d_row), shifted(goal.col, d_col))
    }

    fn shift(index: usize, delta: i32) -> (r: usize)
        ensures
            r == shifted(index, delta),
    {
        let v: i128 = index as i128 + delta as i128;
        let m: i128 = usize::MAX as i128 + 1;
        let w: i128 = if v < 0 {
            v + m
        } else if v >= m {
            v - m
        } else {
            v
        };
        proof {
            lemma_fundamental_div_mod_converse(
                index + delta,
                m as int,
                if v < 0 {
                    -1
                } else if v >= m {
                    1
                } else {
                    0
                },
                w as int,
            );
        }
        w as usize
    }

    fn random_goal(&self, map: &TileMap, d_row: i32, d_col: i32) -> (t: Tile)
        requires
            self.goal is Some,
        ensures
            t == Moblin::next_goal(self.goal->0, *map, d_row, d_col),
    {
        let tile = self.goal.unwrap();
        map.tile_at(Moblin::shift(tile.row, d_row), Moblin::shift(tile.col, d_col))
    }

    /// The enemy after one tick: without a goal it takes the first one; it
    /// then walks towards its goal, or, standing on it, picks the next goal
    /// `d_row` rows and `d_col` columns away.
    pub open spec fn ticked(&self, dt: u64, map: TileMap, d_row: i32, d_col: i32) -> Moblin {
        let m = if self.goal is None {
            Moblin { goal: Some(find_tile(map.tiles@, FIRST_GOAL_ROW, FIRST_GOAL_COL)), ..*self }
        } else {
            *self
        };
        match m.goal_direction(map) {
            Some(direction) => Moblin { entity: m.entity.moved(direction, dt, map), ..m },
            None => Moblin { goal: Some(Moblin::next_goal(m.goal->0, map, d_row, d_col)), ..m },
        }
    }

    /// Runs the enemy for one tick of `dt` nanoseconds. `d_row` and `d_col`
    /// are the random offsets, each drawn from `-5..5`, that pick its next
    /// goal should it need one.
    pub fn tick(&mut self, dt: u64, map: &TileMap, d_row: i32, d_col: i32)
        requires
            old(self).wf(),
        ensures
            *final(self) == old(self).ticked(dt, *map, d_row, d_col),
            final(self).wf(),
    {
        if self.goal.is_none() {
            self.goal = Some(map.tile_at(FIRST_GOAL_ROW, FIRST_GOAL_COL));
        }
        match self.direction_to_goal(map) {
            Some(direction) => self.move_in(direction, dt, map),
            None => {
                self.goal = Some(self.random_goal(map, d_row, d_col));
            },
        }
    }
}

impl crate::components::Entity for Moblin {

}

impl Bounded for Moblin {
    open spec fn spec_bounds(&self) -> Rect {
        self.entity.bounds()
    }

    fn get_bounds(&self) -> (r: Rect) {
        self.entity.get_bounds()
    }

    fn set_bounds(&mut self, x: i128, y: i128, width: i128, height: i128)
        ensures
            *final(self) == (Moblin { entity: Entity { x, y, ..old(self).entity }, ..*old(self) }),
    {
        self.entity.x = x;
        self.entity.y = y;
    }

    fn set_x(&mut self, x: i128)
        ensures
            *final(self) == (Moblin { entity: Entity { x, ..old(self).entity }, ..*old(self) }),
    {
        self.entity.x = x;
    }

    fn set_y(&mut self, y: i128)
        ensures
            *final(self) == (Moblin { entity: Entity { y, ..old(self).entity }, ..*old(self) }),
    {
        self.entity.y = y;
    }
}

impl Mobile for Moblin {
    open spec fn can_move(&self) -> bool {
        self.wf()
    }

    open spec fn spec_moved(&self, direction: Direction, dt: u64, map: TileMap) -> Moblin {
        Moblin { entity: self.entity.moved(direction, dt, map), ..*self }
    }

    fn move_in(&mut self, direction: Direction, dt: u64, map: &TileMap) {
        self.entity.move_in(direction, dt, map);
    }
}

} // verus!
