use vstd::prelude::*;

verus! {

use crate::components::{Bounded, Item};
use crate::moblin::{all_wf, lessened, Moblin};
use crate::util::{in_range, intersects, overlaps, touches, Rect};

/// The health that a hit of the sword takes.
pub const SWORD_DAMAGE: i32 = 10;

/// A sword: while it is held out it hurts every enemy it overlaps, at every
/// tick.
#[derive(Clone, Copy, Debug, PartialEq, Eq, Structural)]
pub struct Sword {
    pub x: i128,
    pub y: i128,
    pub width: i128,
    pub height: i128,
    pub active: bool,
    pub damage: i32,
}

impl Sword {
    pub open spec fn bounds(&self) -> Rect {
        Rect { left: self.x, top: self.y, width: self.width, height: self.height }
    }

    pub open spec fn wf(&self) -> bool {
        self.bounds().wf()
    }

    /// A sword at `(x, y)`, put away, whose sprite is `width` by `height`.
    pub fn new(x: i128, y: i128, width: u32, height: u32) -> (s: Sword)
        requires
            in_range(x as int),
            in_range(y as int),
        ensures
            s == (Sword {
                x,
                y,
                width: width as i128,
                height: height as i128,
                active: false,
                damage: SWORD_DAMAGE,
            }),
            s.wf(),
    {
        Sword {
            x,
            y,
            width: width as i128,
            height: height as i128,
            active: false,
            damage: SWORD_DAMAGE,
        }
    }

    /// `enemy` after a tick of the sword held out: hurt when the two
    /// overlap, as it was otherwise.
    pub open spec fn hit(&self, enemy: Moblin) -> Moblin {
        if overlaps(self.bounds(), enemy.entity.bounds()) {
            Moblin { health: lessened(enemy.health, self.damage), ..enemy }
        } else {
            enemy
        }
    }
}

impl crate::components::Entity for Sword {

}

impl Bounded for Sword {
    open spec fn spec_bounds(&self) -> Rect {
        self.bounds()
    }

    fn get_bounds(&self) -> (r: Rect) {
        Rect { left: self.x, top: self.y, width: self.width, height: self.height }
    }

    fn set_bounds(&mut self, x: i128, y: i128, width: i128, height: i128)
        ensures
            *final(self) == (Sword { x, y, ..*old(self) }),
    {
        self.x = x;
        self.y = y;
    }

    fn set_x(&mut self, x: i128)
        ensures
            *final(self) == (Sword { x, ..*old(self) }),
    {
        self.x = x;
    }

    fn set_y(&mut self, y: i128)
        ensures
            *final(self) == (Sword { y, ..*old(self) }),
    {
        self.y = y;
    }
}

impl Item for Sword {
    open spec fn is_active(&self) -> bool {
        self.active
    }

    open spec fn can_act(&self) -> bool {
        self.wf()
    }

    open spec fn strike(&self, enemies: Seq<Moblin>) -> Seq<Moblin> {
        if self.active {
            enemies.map_values(|e: Moblin| self.hit(e))
        } else {
            enemies
        }
    }

    fn activate(&mut self)
        ensures
            *final(self) == (Sword { active: true, ..*old(self) }),
    {
        self.active = true;
    }

    fn deactivate(&mut self)
        ensures
            *final(self) == (Sword { active: false, ..*old(self) }),
    {
        self.active = false;
    }

    fn tick(&mut self, dt: u64, enemies: &mut Vec<Moblin>) {
        if !self.active {
            return;
        }
        let ghost before = enemies@;
        let srect = self.get_bounds();
        let mut i: usize = 0;
        while i < enemies.len()
            invariant
                self.wf(),
                self.active,
                srect == self.bounds(),
                i <= enemies@.len(),
                enemies@.len() == before.len(),
                all_wf(before),
                all_wf(enemies@),
                forall|j: int| 0 <= j < i ==> enemies@[j] == self.hit(#[trigger] before[j]),
                forall|j: int| i <= j < enemies@.len() ==> enemies@[j] == before[j],
            decreases enemies@.len() - i,
        {
            assert(enemies@[i as int].wf());
            let mrect = enemies[i].get_bounds();
            if intersects(&srect, &mrect) {
                enemies[i].damage(self.damage);
            }
            i += 1;
        }
        assert(enemies@ == self.strike(before));
    }
}

/// A sword held out does not hurt an enemy that it only touches: every such
/// enemy comes out of the sword's tick as it went in.
pub proof fn lemma_touching_is_no_hit(sword: Sword, enemies: Seq<Moblin>)
    requires
        sword.wf(),
        all_wf(enemies),
    ensures
        forall|i: int|
            0 <= i < enemies.len() && touches(sword.bounds(), enemies[i].entity.bounds()) ==> (
            #[trigger] sword.strike(enemies)[i]) == enemies[i],
{
}
} // verus!
