use vstd::prelude::*;

verus! {

use crate::components::{Bounded, Item, Mobile};
use crate::entity::Entity;
use crate::moblin::{all_wf, Moblin};
use crate::sword::Sword;
use crate::util::{clamp, clamp_coord, in_range, Rect};
use crate::world::{Direction, TileMap};

/// Where the held item sits, from the player's corner, in pixels.
pub const ITEM_OFFSET_X: i128 = 9;

pub const ITEM_OFFSET_Y: i128 = 25;

/// The character that the keyboard steers, with the item it holds.
#[derive(Clone, Copy, Debug, PartialEq, Eq, Structural)]
pub struct Player {
    pub entity: Entity,
    pub active_item: Option<Sword>,
}

impl Player {
    pub open spec fn wf(&self) -> bool {
        &&& self.entity.wf()
        &&& self.active_item matches Some(item) ==> item.wf()
    }

    /// A player at `(x, y)` holding nothing, whose sprite is `width` by
    /// `height`.
    pub fn new(x: i128, y: i128, speed: u64, width: u32, height: u32) -> (p: Player)
        requires
            in_range(x as int),
            in_range(y as int),
        ensures
            p == (Player {
                entity: Entity {
                    x,
                    y,
                    width: width as i128,
                    height: height as i128,
                    speed,
                    frac_x: 0,
                    frac_y: 0,
                },
                active_item: None,
            }),
            p.wf(),
    {
        Player { entity: Entity::new(x, y, speed, width, height), active_item: None }
    }

    pub fn set_active_item(&mut self, item: Sword)
        ensures
            *final(self) == (Player { active_item: Some(item), ..*old(self) }),
    {
        self.active_item = Some(item);
    }

    /// The held item, switched on when `state` is true and off otherwise.
    pub open spec fn item_in_state(&self, state: bool) -> Option<Sword> {
        match self.active_item {
            Some(item) => Some(Sword { active: state, ..item }),
            None => None,
        }
    }

    /// Switches the held item on (the button is down) or off (it is up).
    pub fn set_active_item_state(&mut self, state: bool)
        ensures
            *final(self) == (Player { active_item: old(self).item_in_state(state), ..*old(self) }),
    {
        match &mut self.active_item {
            Some(item) => {
                if state {
                    item.activate();
                } else {
                    item.deactivate();
                }
            },
            None => {},
        }
    }

    /// The enemies after a tick of the held item; as they were when nothing
    /// is held.
    pub open spec fn struck(&self, enemies: Seq<Moblin>) -> Seq<Moblin> {
        match self.active_item {
            Some(item) => item.strike(enemies),
            None => enemies,
        }
    }

    /// Lets the held item act on `enemies` for one tick.
    pub fn tick(&mut self, dt: u64, enemies: &mut Vec<Moblin>)
        requires
            old(self).wf(),
            all_wf(old(enemies)@),
        ensures
            *final(self) == *old(self),
            final(enemies)@ == old(self).struck(old(enemies)@),
            all_wf(final(enemies)@),
    {
        match &mut self.active_item {
            Some(item) => item.tick(dt, enemies),
            None => {},
        }
    }

    /// The held item, moved to its place beside the player.
    pub open spec fn item_placed(&self) -> Option<Sword> {
        match self.active_item {
            Some(item) => Some(
                Sword {
                    x: clamp(self.entity.x + ITEM_OFFSET_X) as i128,
                    y: clamp(self.entity.y + ITEM_OFFSET_Y) as i128,
                    ..item
                },
            ),
            None => None,
        }
    }

    /// Moves the held item to its place beside the player.
    pub fn place_item(&mut self)
        requires
            old(self).wf(),
        ensures
            *final(self) == (Player { active_item: old(self).item_placed(), ..*old(self) }),
            final(self).wf(),
    {
        let x = clamp_coord(self.entity.x + ITEM_OFFSET_X);
        let y = clamp_coord(self.entity.y + ITEM_OFFSET_Y);
        match &mut self.active_item {
            Some(item) => {
                item.set_x(x);
                item.set_y(y);
            },
            None => {},
        }
    }
}

impl crate::components::Entity for Player {

}

impl Bounded for Player {
    open spec fn spec_bounds(&self) -> Rect {
        self.entity.bounds()
    }

    fn get_bounds(&self) -> (r: Rect) {
        self.entity.get_bounds()
    }

    fn set_bounds(&mut self, x: i128, y: i128, width: i128, height: i128)
        ensures
            *final(self) == (Player { entity: Entity { x, y, ..old(self).entity }, ..*old(self) }),
    {
        self.entity.x = x;
        self.entity.y = y;
    }

    fn set_x(&mut self, x: i128)
        ensures
            *final(self) == (Player { entity: Entity { x, ..old(self).entity }, ..*old(self) }),
    {
        self.entity.x = x;
    }

    fn set_y(&mut self, y: i128)
        ensures
            *final(self) == (Player { entity: Entity { y, ..old(self).entity }, ..*old(self) }),
    {
        self.entity.y = y;
    }
}

impl Mobile for Player {
    open spec fn can_move(&self) -> bool {
        self.wf()
    }

    open spec fn spec_moved(&self, direction: Direction, dt: u64, map: TileMap) -> Player {
        Player { entity: self.entity.moved(direction, dt, map), ..*self }
    }

    fn move_in(&mut self, direction: Direction, dt: u64, map: &TileMap) {
        self.entity.move_in(direction, dt, map);
    }
}

} // verus!
