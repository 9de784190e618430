use vstd::prelude::*;

verus! {

use crate::components::Bounded;
use crate::util::{
    clamp, clamp_coord, in_range, lemma_correction_separates, overlaps, resolution, Rect, MAX_COORD,
};
use vstd::arithmetic::div_mod::{lemma_fundamental_div_mod, lemma_fundamental_div_mod_converse};
use crate::world::{lemma_resolution_in_range, Direction, TileKind, TileMap};

/// Nanoseconds in a second, and nanopixels in a pixel.
pub const NANOS: u64 = 1_000_000_000;

/// A body that moves through the map: a position and a size in pixels, a
/// speed in pixels per second, and on each axis the part of a pixel, in
/// nanopixels, by which the body stands past its whole-pixel position. The
/// exact position on an axis is thus `x * NANOS + frac_x` nanopixels, and
/// `x` is the whole pixel at or before it; the box of the body starts there.
#[derive(Clone, Copy, Debug, PartialEq, Eq, Structural)]
pub struct Entity {
    pub x: i128,
    pub y: i128,
    pub width: i128,
    pub height: i128,
    pub speed: u64,
    pub frac_x: u64,
    pub frac_y: u64,
}

/// The whole-pixel position and the nanopixels past it of an exact position
/// given in nanopixels; at the edge of the playable range the body stops,
/// flush with the edge.
pub open spec fn place(exact: int) -> (int, int) {
    let pixel = exact / NANOS as int;
    if in_range(pixel) {
        (pixel, exact % NANOS as int)
    } else {
        (clamp(pixel), 0)
    }
}

/// The exact position, in nanopixels, reached from `pos` pixels and `frac`
/// nanopixels by travelling `delta` nanopixels forward or backward.
pub open spec fn shifted_exact(pos: int, frac: int, delta: int, forward: bool) -> int {
    if forward {
        pos * NANOS + frac + delta
    } else {
        pos * NANOS + frac - delta
    }
}

/// Moves a position of one axis by `delta` nanopixels, forward or backward.
fn shift_axis(pos: i128, frac: u64, delta: u128, forward: bool) -> (r: (i128, u64))
    requires
        in_range(pos as int),
        frac < NANOS,
    ensures
        r.0 == place(shifted_exact(pos as int, frac as int, delta as int, forward)).0,
        r.1 == place(shifted_exact(pos as int, frac as int, delta as int, forward)).1,
        in_range(r.0 as int),
        r.1 < NANOS,
{
    let whole: u128 = delta / NANOS as u128;
    let part: u64 = (delta % NANOS as u128) as u64;
    proof {
        lemma_fundamental_div_mod(delta as int, NANOS as int);
    }
    assert(whole <= 0x8_0000_0000_0000_0000_0000_0000) by (nonlinear_arith)
        requires
            whole == delta / 1_000_000_000,
            delta <= 0xffff_ffff_ffff_ffff_ffff_ffff_ffff_ffff,
    ;
    let ghost exact = shifted_exact(pos as int, frac as int, delta as int, forward);
    let (pixel, rest): (i128, u64) = if forward {
        let sum: u64 = frac + part;
        if sum >= NANOS {
            (pos + whole as i128 + 1, sum - NANOS)
        } else {
            (pos + whole as i128, sum)
        }
    } else {
        if frac >= part {
            (pos - whole as i128, frac - part)
        } else {
            (pos - whole as i128 - 1, frac + NANOS - part)
        }
    };
    proof {
        assert(exact == pixel * NANOS + rest) by (nonlinear_arith)
            requires
                delta == NANOS * whole + part,
                exact == shifted_exact(pos as int, frac as int, delta as int, forward),
                forward ==> (pixel == pos + whole + 1 && rest == frac + part - NANOS) || (pixel
                    == pos + whole && rest == frac + part),
                !forward ==> (pixel == pos - whole && rest == frac - part) || (pixel == pos
                    - whole - 1 && rest == frac + NANOS - part),
        ;
        lemma_fundamental_div_mod_converse(exact, NANOS as int, pixel as int, rest as int);
    }
    if -MAX_COORD <= pixel && pixel <= MAX_COORD {
        (pixel, rest)
    } else {
        (clamp_coord(pixel), 0)
    }
}

impl Entity {
    pub open spec fn wf(&self) -> bool {
        &&& self.bounds().wf()
        &&& self.frac_x < NANOS
        &&& self.frac_y < NANOS
    }

    pub open spec fn bounds(&self) -> Rect {
        Rect { left: self.x, top: self.y, width: self.width, height: self.height }
    }

    /// The exact horizontal position, in nanopixels.
    pub open spec fn exact_x(&self) -> int {
        self.x * NANOS + self.frac_x
    }

    /// The exact vertical position, in nanopixels.
    pub open spec fn exact_y(&self) -> int {
        self.y * NANOS + self.frac_y
    }

    /// A body at `(x, y)` whose sprite is `width` by `height` pixels.
    pub fn new(x: i128, y: i128, speed: u64, width: u32, height: u32) -> (e: Entity)
        requires
            in_range(x as int),
            in_range(y as int),
        ensures
            e == (Entity {
                x,
                y,
                width: width as i128,
                height: height as i128,
                speed,
                frac_x: 0,
                frac_y: 0,
            }),
            e.wf(),
    {
        Entity {
            x,
            y,
            width: width as i128,
            height: height as i128,
            speed,
            frac_x: 0,
            frac_y: 0,
        }
    }

    /// The distance in nanopixels that `dt` nanoseconds of travel cover.
    pub open spec fn travel(&self, dt: u64) -> int {
        self.speed * dt
    }

    /// The body after `dt` nanoseconds of travel in `direction`, before any
    /// wall is taken into account: the exact position on the axis of travel
    /// moves by the distance travelled, the other axis stays as it was.
    pub open spec fn stepped(&self, direction: Direction, dt: u64) -> Entity {
        let d = self.travel(dt);
        match direction {
            Direction::North => {
                let (p, f) = place(self.exact_y() - d);
                Entity { y: p as i128, frac_y: f as u64, ..*self }
            },
            Direction::South => {
                let (p, f) = place(self.exact_y() + d);
                Entity { y: p as i128, frac_y: f as u64, ..*self }
            },
            Direction::East => {
                let (p, f) = place(self.exact_x() + d);
                Entity { x: p as i128, frac_x: f as u64, ..*self }
            },
            Direction::West => {
                let (p, f) = place(self.exact_x() - d);
                Entity { x: p as i128, frac_x: f as u64, ..*self }
            },
        }
    }

    /// The body after a move: the step, then the push out of each wall. An
    /// axis on which a wall pushed the body keeps no part of a pixel: the
    /// body rests flush against the wall.
    pub open spec fn moved(&self, direction: Direction, dt: u64, map: TileMap) -> Entity {
        let s = self.stepped(direction, dt);
        let r = map.settled(s.bounds(), direction);
        Entity {
            x: r.left,
            y: r.top,
            frac_x: if r.left == s.x {
                s.frac_x
            } else {
                0
            },
            frac_y: if r.top == s.y {
                s.frac_y
            } else {
                0
            },
            ..s
        }
    }

    /// Moves the body for `dt` nanoseconds in `direction`, then pushes it out
    /// of the walls of `map` that it overlaps.
    pub fn move_in(&mut self, direction: Direction, dt: u64, map: &TileMap)
        requires
            old(self).wf(),
        ensures
            *final(self) == old(self).moved(direction, dt, *map),
            final(self).wf(),
    {
        assert(self.speed as int * dt as int <= 0xffff_ffff_ffff_ffff * 0xffff_ffff_ffff_ffff)
            by (nonlinear_arith)
            requires
                0 <= self.speed <= 0xffff_ffff_ffff_ffff,
                0 <= dt <= 0xffff_ffff_ffff_ffff,
        ;
        let delta: u128 = self.speed as u128 * dt as u128;
        match direction {
            Direction::North => {
                let (p, f) = shift_axis(self.y, self.frac_y, delta, false);
                self.y = p;
                self.frac_y = f;
            },
            Direction::East => {
                let (p, f) = shift_axis(self.x, self.frac_x, delta, true);
                self.x = p;
                self.frac_x = f;
            },
            Direction::South => {
                let (p, f) = shift_axis(self.y, self.frac_y, delta, true);
                self.y = p;
                self.frac_y = f;
            },
            Direction::West => {
                let (p, f) = shift_axis(self.x, self.frac_x, delta, false);
                self.x = p;
                self.frac_x = f;
            },
        }
        let settled = map.settle_rect(self.get_bounds(), direction);
        if settled.left != self.x {
            self.x = settled.left;
            self.frac_x = 0;
        }
        if settled.top != self.y {
            self.y = settled.top;
            self.frac_y = 0;
        }
    }
}

impl crate::components::Entity for Entity {

}

impl Bounded for Entity {
    open spec fn spec_bounds(&self) -> Rect {
        self.bounds()
    }

    fn get_bounds(&self) -> (r: Rect) {
        Rect { left: self.x, top: self.y, width: self.width, height: self.height }
    }

    fn set_bounds(&mut self, x: i128, y: i128, width: i128, height: i128)
        ensures
            *final(self) == (Entity { x, y, ..*old(self) }),
    {
        self.x = x;
        self.y = y;
    }

    fn set_x(&mut self, x: i128)
        ensures
            *final(self) == (Entity { x, ..*old(self) }),
    {
        self.x = x;
    }

    fn set_y(&mut self, y: i128)
        ensures
            *final(self) == (Entity { y, ..*old(self) }),
    {
        self.y = y;
    }
}

/// A step moves the exact position on the axis of travel by exactly the
/// distance travelled, unless it reaches the edge of the playable range, and
/// leaves the other axis as it was.
pub proof fn lemma_step_is_exact(e: Entity, direction: Direction, dt: u64)
    requires
        e.wf(),
    ensures
        ({
            let s = e.stepped(direction, dt);
            let d = e.travel(dt);
            match direction {
                Direction::North => (in_range((e.exact_y() - d) / NANOS as int) ==> s.exact_y()
                    == e.exact_y() - d) && s.x == e.x && s.frac_x == e.frac_x,
                Direction::South => (in_range((e.exact_y() + d) / NANOS as int) ==> s.exact_y()
                    == e.exact_y() + d) && s.x == e.x && s.frac_x == e.frac_x,
                Direction::East => (in_range((e.exact_x() + d) / NANOS as int) ==> s.exact_x()
                    == e.exact_x() + d) && s.y == e.y && s.frac_y == e.frac_y,
                Direction::West => (in_range((e.exact_x() - d) / NANOS as int) ==> s.exact_x()
                    == e.exact_x() - d) && s.y == e.y && s.frac_y == e.frac_y,
            }
        }),
{
    let d = e.travel(dt);
    lemma_fundamental_div_mod(e.exact_y() - d, NANOS as int);
    lemma_fundamental_div_mod(e.exact_y() + d, NANOS as int);
    lemma_fundamental_div_mod(e.exact_x() + d, NANOS as int);
    lemma_fundamental_div_mod(e.exact_x() - d, NANOS as int);
}

/// A move takes a body no further along its axis of travel than the
/// distance travelled, since walls only push back, and never moves it along
/// the other axis.
pub proof fn lemma_move_within_travel(e: Entity, direction: Direction, dt: u64, map: TileMap)
    requires
        e.wf(),
    ensures
        ({
            let m = e.moved(direction, dt, map);
            let d = e.travel(dt);
            match direction {
                Direction::North => e.exact_y() - m.exact_y() <= d && m.x == e.x && m.frac_x
                    == e.frac_x,
                Direction::South => m.exact_y() - e.exact_y() <= d && m.x == e.x && m.frac_x
                    == e.frac_x,
                Direction::East => m.exact_x() - e.exact_x() <= d && m.y == e.y && m.frac_y
                    == e.frac_y,
                Direction::West => e.exact_x() - m.exact_x() <= d && m.y == e.y && m.frac_y
                    == e.frac_y,
            }
        }),
{
    let s = e.stepped(direction, dt);
    let d = e.travel(dt);
    lemma_step_is_exact(e, direction, dt);
    map.lemma_walls_only_push_back(s.bounds(), direction, map.tiles@.len());
    lemma_fundamental_div_mod(e.exact_y() - d, NANOS as int);
    lemma_fundamental_div_mod(e.exact_y() + d, NANOS as int);
    lemma_fundamental_div_mod(e.exact_x() + d, NANOS as int);
    lemma_fundamental_div_mod(e.exact_x() - d, NANOS as int);
}

/// A body whose step leaves it clear of every wall is not corrected: the
/// move is the step alone.
pub proof fn lemma_move_without_walls_in_the_way(
    e: Entity,
    direction: Direction,
    dt: u64,
    map: TileMap,
)
    requires
        e.wf(),
        forall|i: int|
            0 <= i < map.tiles@.len() && #[trigger] map.tiles@[i].kind == TileKind::Wall ==> !overlaps(
                e.stepped(direction, dt).bounds(),
                map.bounds_of(map.tiles@[i]),
            ),
    ensures
        e.moved(direction, dt, map) == e.stepped(direction, dt),
{
    map.lemma_clear_path(e.stepped(direction, dt).bounds(), direction, map.tiles@.len());
}

/// On a map with a single wall, a body whose step ends inside that wall
/// comes to rest where resolving its box against the wall puts it: clear of
/// the wall on the axis of travel, and pushed back against its direction.
pub proof fn lemma_move_into_one_wall(
    e: Entity,
    direction: Direction,
    dt: u64,
    map: TileMap,
    k: int,
)
    requires
        e.wf(),
        0 <= k < map.tiles@.len(),
        map.tiles@[k].kind == TileKind::Wall,
        forall|i: int|
            0 <= i < map.tiles@.len() && i != k ==> #[trigger] map.tiles@[i].kind
                != TileKind::Wall,
        overlaps(e.stepped(direction, dt).bounds(), map.bounds_of(map.tiles@[k])),
    ensures
        ({
            let s = e.stepped(direction, dt);
            let wall = map.bounds_of(map.tiles@[k]);
            let m = e.moved(direction, dt, map);
            &&& resolution(s.bounds(), wall, direction) == Some((m.x as int, m.y as int))
            &&& match direction {
                Direction::North => m.y >= wall.bottom() && m.y > s.y && m.x == s.x,
                Direction::South => m.y + m.height <= wall.top && m.y < s.y && m.x == s.x,
                Direction::East => m.x + m.width <= wall.left && m.x < s.x && m.y == s.y,
                Direction::West => m.x >= wall.right() && m.x > s.x && m.y == s.y,
            }
        }),
{
    let s = e.stepped(direction, dt);
    let wall = map.bounds_of(map.tiles@[k]);
    map.lemma_single_wall(s.bounds(), direction, k, map.tiles@.len());
    map.lemma_walls_only_push_back(s.bounds(), direction, map.tiles@.len());
    map.lemma_bounds_on_grid(map.tiles@[k]);
    lemma_resolution_in_range(s.bounds(), wall, direction);
    lemma_correction_separates(s.bounds(), wall, direction);
}

} // verus!
