use vstd::prelude::*;

verus! {

use crate::moblin::{all_wf, Moblin};
use crate::util::{in_range, Rect};
use crate::world::{Direction, TileMap};

/// Anything that lives in the world.
pub trait Entity {

}

/// An entity with a bounding box. Its size is that of its sprite; only its
/// position can be changed.
pub trait Bounded: Entity {
    /// The box that the entity occupies.
    spec fn spec_bounds(&self) -> Rect;

    fn get_bounds(&self) -> (r: Rect)
        ensures
            r == self.spec_bounds(),
    ;

    /// Moves the entity to `(x, y)`. The size is that of the sprite, so
    /// `width` and `height` are not taken.
    fn set_bounds(&mut self, x: i128, y: i128, width: i128, height: i128)
        requires
            in_range(x as int),
            in_range(y as int),
        ensures
            final(self).spec_bounds() == old(self).spec_bounds().moved_to(x as int, y as int),
    ;

    fn set_x(&mut self, x: i128)
        requires
            in_range(x as int),
            in_range(old(self).spec_bounds().top as int),
        ensures
            final(self).spec_bounds() == old(self).spec_bounds().moved_to(
                x as int,
                old(self).spec_bounds().top as int,
            ),
    {
        let r = self.get_bounds();
        self.set_bounds(x, r.top, r.width, r.height);
    }

    fn set_y(&mut self, y: i128)
        requires
            in_range(y as int),
            in_range(old(self).spec_bounds().left as int),
        ensures
            final(self).spec_bounds() == old(self).spec_bounds().moved_to(
                old(self).spec_bounds().left as int,
                y as int,
            ),
    {
        let r = self.get_bounds();
        self.set_bounds(r.left, y, r.width, r.height);
    }
}

/// An entity that travels through the map and is stopped by its walls.
pub trait Mobile: Entity + Sized {
    /// The entity is in a state from which it can move.
    spec fn can_move(&self) -> bool;

    /// The entity after it travelled for `dt` nanoseconds in `direction`.
    spec fn spec_moved(&self, direction: Direction, dt: u64, map: TileMap) -> Self;

    fn move_in(&mut self, direction: Direction, dt: u64, map: &TileMap)
        requires
            old(self).can_move(),
        ensures
            *final(self) == old(self).spec_moved(direction, dt, *map),
            final(self).can_move(),
    ;
}

/// Something the player holds, which can be switched on and off, and which
/// acts on the enemies at each tick while it is on.
pub trait Item: Entity + Bounded + Sized {
    spec fn is_active(&self) -> bool;

    /// The item is in a state from which it can act.
    spec fn can_act(&self) -> bool;

    /// The enemies after one tick of the item.
    spec fn strike(&self, enemies: Seq<Moblin>) -> Seq<Moblin>;

    fn activate(&mut self)
        ensures
            final(self).is_active(),
            final(self).spec_bounds() == old(self).spec_bounds(),
            final(self).can_act() == old(self).can_act(),
    ;

    fn deactivate(&mut self)
        ensures
            !final(self).is_active(),
            final(self).spec_bounds() == old(self).spec_bounds(),
            final(self).can_act() == old(self).can_act(),
    ;

    fn tick(&mut self, dt: u64, enemies: &mut Vec<Moblin>)
        requires
            old(self).can_act(),
            all_wf(old(enemies)@),
        ensures
            *final(self) == *old(self),
            final(enemies)@ == old(self).strike(old(enemies)@),
            all_wf(final(enemies)@),
    ;
}

} // verus!
