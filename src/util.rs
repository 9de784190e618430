use vstd::prelude::*;

verus! {

use crate::world::Direction;

/// The largest distance from the origin that a coordinate may have, and the
/// largest width or height of a rectangle, in pixels: two to the hundredth.
/// Coordinates are held in `i128`, so no sum of a coordinate and a size, nor
/// a position reached by pushing one box out of another, can overflow.
pub const MAX_COORD: i128 = 1267650600228229401496703205376;

/// An axis-aligned bounding box in whole pixels: `left` and `top` give the
/// upper left corner, `y` grows downwards.
#[derive(Clone, Copy, Debug, PartialEq, Eq, Structural)]
pub struct Rect {
    pub left: i128,
    pub top: i128,
    pub width: i128,
    pub height: i128,
}

impl Rect {
    /// Coordinates within the playable range and a size that is not negative.
    pub open spec fn wf(&self) -> bool {
        &&& in_range(self.left as int)
        &&& in_range(self.top as int)
        &&& 0 <= self.width <= MAX_COORD
        &&& 0 <= self.height <= MAX_COORD
    }

    pub open spec fn right(&self) -> int {
        self.left + self.width
    }

    pub open spec fn bottom(&self) -> int {
        self.top + self.height
    }

    /// The same rectangle with its corner moved to `(x, y)`.
    pub open spec fn moved_to(&self, x: int, y: int) -> Rect {
        Rect { left: x as i128, top: y as i128, width: self.width, height: self.height }
    }

    pub fn new(left: i128, top: i128, width: i128, height: i128) -> (r: Rect)
        ensures
            r == (Rect { left, top, width, height }),
    {
        Rect { left, top, width, height }
    }
}

/// `v` lies in the playable range of coordinates.
pub open spec fn in_range(v: int) -> bool {
    -MAX_COORD <= v <= MAX_COORD
}

/// `v` brought into the playable range.
pub open spec fn clamp(v: int) -> int {
    if v < -MAX_COORD {
        -MAX_COORD as int
    } else if v > MAX_COORD {
        MAX_COORD as int
    } else {
        v
    }
}

/// Brings `v` into the playable range.
pub fn clamp_coord(v: i128) -> (r: i128)
    ensures
        r == clamp(v as int),
{
    if v < -MAX_COORD {
        -MAX_COORD
    } else if v > MAX_COORD {
        MAX_COORD
    } else {
        v
    }
}

/// The larger of two values.
pub open spec fn max(a: int, b: int) -> int {
    if a >= b {
        a
    } else {
        b
    }
}

/// The smaller of two values.
pub open spec fn min(a: int, b: int) -> int {
    if a <= b {
        a
    } else {
        b
    }
}

/// Two boxes overlap when the region they share has a positive width and a
/// positive height: boxes that only touch along an edge or at a corner do
/// not, nor does a box without area overlap anything.
pub open spec fn overlaps(a: Rect, b: Rect) -> bool {
    &&& max(a.left as int, b.left as int) < min(a.right(), b.right())
    &&& max(a.top as int, b.top as int) < min(a.bottom(), b.bottom())
}

/// Where `moving` ends up when it is pushed out of `obstacle` against the
/// direction it travelled in, or `None` when the two do not overlap.
pub open spec fn resolution(moving: Rect, obstacle: Rect, direction: Direction) -> Option<
    (int, int),
> {
    if !overlaps(moving, obstacle) {
        None
    } else {
        Some(
            match direction {
                Direction::North => (moving.left as int, obstacle.bottom()),
                Direction::East => (obstacle.left - moving.width, moving.top as int),
                Direction::South => (moving.left as int, obstacle.top - moving.height),
                Direction::West => (obstacle.right(), moving.top as int),
            },
        )
    }
}

/// Two boxes touch when they meet, along an edge or at a corner, but the
/// region they share has no area.
pub open spec fn touches(a: Rect, b: Rect) -> bool {
    &&& a.left <= b.right()
    &&& b.left <= a.right()
    &&& a.top <= b.bottom()
    &&& b.top <= a.bottom()
    &&& (a.left == b.right() || b.left == a.right() || a.top == b.bottom() || b.top
        == a.bottom())
}

/// Whether the region shared by `a` and `b` has a positive area.
pub fn intersects(a: &Rect, b: &Rect) -> (r: bool)
    requires
        a.wf(),
        b.wf(),
    ensures
        r == overlaps(*a, *b),
{
    let left = if a.left >= b.left {
        a.left
    } else {
        b.left
    };
    let right = if a.left + a.width <= b.left + b.width {
        a.left + a.width
    } else {
        b.left + b.width
    };
    let top = if a.top >= b.top {
        a.top
    } else {
        b.top
    };
    let bottom = if a.top + a.height <= b.top + b.height {
        a.top + a.height
    } else {
        b.top + b.height
    };
    left < right && top < bottom
}

/// If `r1` and `r2` intersect, returns the new position of `r1` when it is
/// bounced out of `r2` opposite to `direction`, one pixel at a time. Returns
/// `None` if they do not intersect.
pub fn collide_rects(r1: &Rect, r2: &Rect, direction: Direction) -> (r: Option<(i128, i128)>)
    requires
        r1.wf(),
        r2.wf(),
    ensures
        match resolution(*r1, *r2, direction) {
            None => r is None,
            Some((x, y)) => r == Some((x as i128, y as i128)),
        },
        r matches Some((x, y)) ==> -2 * MAX_COORD <= x <= 2 * MAX_COORD && -2 * MAX_COORD <= y
            <= 2 * MAX_COORD,
{
    if !intersects(r1, r2) {
        return None;
    }
    let mut new_x: i128 = r1.left;
    let mut new_y: i128 = r1.top;
    match direction {
        Direction::North => {
            while new_y < r2.top + r2.height
                invariant
                    r1.wf(),
                    r2.wf(),
                    r1.top <= new_y <= r2.bottom(),
                decreases r2.bottom() - new_y,
            {
                new_y += 1;
            }
        },
        Direction::East => {
            while new_x + r1.width > r2.left
                invariant
                    r1.wf(),
                    r2.wf(),
                    r2.left - r1.width <= new_x <= r1.left,
                decreases new_x + r1.width - r2.left,
            {
                new_x -= 1;
            }
        },
        Direction::South => {
            while new_y + r1.height > r2.top
                invariant
                    r1.wf(),
                    r2.wf(),
                    r2.top - r1.height <= new_y <= r1.top,
                decreases new_y + r1.height - r2.top,
            {
                new_y -= 1;
            }
        },
        Direction::West => {
            while new_x < r2.left + r2.width
                invariant
                    r1.wf(),
                    r2.wf(),
                    r1.left <= new_x <= r2.right(),
                decreases r2.right() - new_x,
            {
                new_x += 1;
            }
        },
    }
    Some((new_x, new_y))
}

/// Boxes that do not overlap need no correction: resolving one against the
/// other gives nothing, whatever the direction.
pub proof fn lemma_apart_needs_no_correction(moving: Rect, obstacle: Rect, direction: Direction)
    requires
        !overlaps(moving, obstacle),
    ensures
        resolution(moving, obstacle, direction) is None,
{
}

/// When two boxes overlap, the corrected box lies wholly on the far side of
/// the obstacle along the axis of travel, and it got there by moving strictly
/// against the direction of travel, without moving along the other axis.
pub proof fn lemma_correction_separates(moving: Rect, obstacle: Rect, direction: Direction)
    requires
        overlaps(moving, obstacle),
    ensures
        resolution(moving, obstacle, direction) matches Some((x, y)) && match direction {
            Direction::North => y >= obstacle.bottom() && y > moving.top && x == moving.left,
            Direction::South => y + moving.height <= obstacle.top && y < moving.top && x
                == moving.left,
            Direction::East => x + moving.width <= obstacle.left && x < moving.left && y
                == moving.top,
            Direction::West => x >= obstacle.right() && x > moving.left && y == moving.top,
        },
{
}

/// Resolving again from the corrected position, against the same obstacle
/// and in the same direction, finds nothing left to correct.
pub proof fn lemma_correction_is_final(moving: Rect, obstacle: Rect, direction: Direction)
    requires
        moving.wf(),
        obstacle.wf(),
    ensures
        resolution(moving, obstacle, direction) matches Some((x, y)) ==> resolution(
            moving.moved_to(x, y),
            obstacle,
            direction,
        ) is None,
{
}

} // verus!
