use vstd::prelude::*;

verus! {

use crate::components::{Bounded, Mobile};
use crate::entity::Entity;
use crate::moblin::{all_wf, Moblin};
use crate::player::Player;
use crate::util::{collide_rects, in_range, overlaps, resolution, Rect};

/// One of the four directions of travel on the map; `North` is up the screen.
#[derive(Clone, Copy, Debug, PartialEq, Eq, Structural)]
pub enum Direction {
    North,
    East,
    South,
    West,
}

/// What stands on a tile.
#[derive(Clone, Copy, Debug, PartialEq, Eq, Structural)]
pub enum TileKind {
    Empty,
    Wall,
    PlayerStart,
    EnemyStart,
}

/// A cell of the map grid, identified by its row and column.
#[derive(Clone, Copy, Debug, PartialEq, Eq, Structural)]
pub struct Tile {
    pub row: usize,
    pub col: usize,
    pub kind: TileKind,
}

/// The kind of tile that a character of a map file stands for: `-` and `|`
/// are walls, `@` is where the player starts, `m` is where an enemy starts;
/// any other character holds no tile.
pub open spec fn kind_of(c: char) -> Option<TileKind> {
    if c == '-' || c == '|' {
        Some(TileKind::Wall)
    } else if c == '@' {
        Some(TileKind::PlayerStart)
    } else if c == 'm' {
        Some(TileKind::EnemyStart)
    } else {
        None
    }
}

/// The row at which the character after `s` stands: the number of line
/// breaks in `s`.
pub open spec fn row_after(s: Seq<char>) -> nat
    decreases s.len(),
{
    if s.len() == 0 {
        0
    } else if s.last() == '\n' {
        row_after(s.drop_last()) + 1
    } else {
        row_after(s.drop_last())
    }
}

/// The column at which the character after `s` stands: the number of
/// characters since the last line break of `s`.
pub open spec fn col_after(s: Seq<char>) -> nat
    decreases s.len(),
{
    if s.len() == 0 {
        0
    } else if s.last() == '\n' {
        0
    } else {
        col_after(s.drop_last()) + 1
    }
}

/// The tiles of a map text, in the order of its characters.
pub open spec fn map_tiles(s: Seq<char>) -> Seq<Tile>
    decreases s.len(),
{
    if s.len() == 0 {
        Seq::empty()
    } else {
        let prefix = s.drop_last();
        match kind_of(s.last()) {
            Some(kind) => map_tiles(prefix).push(
                Tile { row: row_after(prefix) as usize, col: col_after(prefix) as usize, kind },
            ),
            None => map_tiles(prefix),
        }
    }
}

proof fn lemma_cursor_bounds(s: Seq<char>)
    ensures
        row_after(s) <= s.len(),
        col_after(s) <= s.len(),
    decreases s.len(),
{
    if s.len() > 0 {
        lemma_cursor_bounds(s.drop_last());
    }
}

/// From one character to a later one, the row grows, or the row stays and
/// the column grows by the distance between them.
proof fn lemma_cursor_advances(s: Seq<char>, i: int, j: int)
    requires
        0 <= i <= j <= s.len(),
    ensures
        row_after(s.take(j)) > row_after(s.take(i)) || (row_after(s.take(j)) == row_after(
            s.take(i),
        ) && col_after(s.take(j)) == col_after(s.take(i)) + (j - i)),
    decreases j - i,
{
    if j > i {
        lemma_cursor_advances(s, i, j - 1);
        assert(s.take(j).drop_last() == s.take(j - 1));
    }
}

/// `tile` stands for the character at `j` of `s`, at that character's row
/// and column.
pub open spec fn tile_from(s: Seq<char>, tile: Tile, j: int) -> bool {
    &&& 0 <= j < s.len()
    &&& kind_of(s[j]) == Some(tile.kind)
    &&& tile.row == row_after(s.take(j))
    &&& tile.col == col_after(s.take(j))
}

/// `tile` stands for one of the characters of `s`.
pub open spec fn from_some_character(s: Seq<char>, tile: Tile) -> bool {
    exists|j: int| #[trigger] tile_from(s, tile, j)
}

proof fn lemma_tiles_come_from_characters(s: Seq<char>)
    requires
        s.len() <= usize::MAX,
    ensures
        forall|k: int|
            0 <= k < map_tiles(s).len() ==> #[trigger] from_some_character(s, map_tiles(s)[k]),
    decreases s.len(),
{
    if s.len() > 0 {
        let prefix = s.drop_last();
        lemma_tiles_come_from_characters(prefix);
        lemma_cursor_bounds(prefix);
        assert(s.take(s.len() - 1) == prefix);
        assert forall|k: int| 0 <= k < map_tiles(s).len() implies #[trigger] from_some_character(
            s,
            map_tiles(s)[k],
        ) by {
            if k < map_tiles(prefix).len() {
                assert(from_some_character(prefix, map_tiles(prefix)[k]));
                let j = choose|j: int| #[trigger] tile_from(prefix, map_tiles(prefix)[k], j);
                assert(prefix.take(j) == s.take(j));
                assert(tile_from(s, map_tiles(s)[k], j));
            } else {
                assert(tile_from(s, map_tiles(s)[k], s.len() - 1));
            }
        }
    }
}

/// A character that names no tile leaves no tile at its row and column:
/// every tile of a map text stands where a wall, start or enemy character
/// stands.
pub proof fn lemma_unknown_characters_hold_no_tile(s: Seq<char>, i: int)
    requires
        s.len() <= usize::MAX,
        0 <= i < s.len(),
        kind_of(s[i]) is None,
    ensures
        forall|k: int|
            0 <= k < map_tiles(s).len() ==> !(#[trigger] map_tiles(s)[k].row == row_after(
                s.take(i),
            ) && map_tiles(s)[k].col == col_after(s.take(i))),
{
    lemma_tiles_come_from_characters(s);
    assert forall|k: int| 0 <= k < map_tiles(s).len() implies !(#[trigger] map_tiles(s)[k].row
        == row_after(s.take(i)) && map_tiles(s)[k].col == col_after(s.take(i))) by {
        assert(from_some_character(s, map_tiles(s)[k]));
        let j = choose|j: int| #[trigger] tile_from(s, map_tiles(s)[k], j);
        if j < i {
            lemma_cursor_advances(s, j, i);
        } else {
            lemma_cursor_advances(s, i, j);
        }
    }
}

fn tile_kind(c: char) -> (k: Option<TileKind>)
    ensures
        k == kind_of(c),
{
    if c == '-' || c == '|' {
        Some(TileKind::Wall)
    } else if c == '@' {
        Some(TileKind::PlayerStart)
    } else if c == 'm' {
        Some(TileKind::EnemyStart)
    } else {
        None
    }
}

/// Reads a map written as a grid of characters, one line per row.
pub fn parse_map(text: &str) -> (tiles: Vec<Tile>)
    ensures
        tiles@ == map_tiles(text@),
{
    let n = text.unicode_len();
    let ghost chars = text@;
    let mut tiles: Vec<Tile> = Vec::new();
    let mut row: usize = 0;
    let mut col: usize = 0;
    for c in it: text.chars()
        invariant
            chars == text@,
            n == chars.len(),
            it.seq() == chars,
            row == row_after(chars.take(it.index() as int)),
            col == col_after(chars.take(it.index() as int)),
            row <= it.index(),
            col <= it.index(),
            tiles@ == map_tiles(chars.take(it.index() as int)),
    {
        let ghost i = it.index() as int;
        assert(chars.take(i + 1).drop_last() == chars.take(i));
        if c == '\n' {
            row += 1;
            col = 0;
        } else {
            match tile_kind(c) {
                Some(kind) => tiles.push(Tile { row, col, kind }),
                None => {},
            }
            col += 1;
        }
    }
    assert(chars.take(chars.len() as int) == chars);
    tiles
}

/// The first tile of `tiles` at `(row, col)`, or an empty tile there when
/// there is none.
pub open spec fn find_tile(tiles: Seq<Tile>, row: usize, col: usize) -> Tile
    decreases tiles.len(),
{
    if tiles.len() == 0 {
        Tile { row, col, kind: TileKind::Empty }
    } else if tiles[0].row == row && tiles[0].col == col {
        tiles[0]
    } else {
        find_tile(tiles.drop_first(), row, col)
    }
}

/// The largest value that a tile's pixel coordinates can reach: a `usize`
/// index times a `u32` size, plus one more size.
pub open spec fn tile_extent() -> int {
    0x1_0000_0000_0000_0000_0000_0000
}

/// A box that stands on the map's side of the origin, within the reach of
/// tile coordinates.
pub open spec fn on_grid(r: Rect) -> bool {
    &&& 0 <= r.left
    &&& 0 <= r.top
    &&& r.right() <= tile_extent()
    &&& r.bottom() <= tile_extent()
    &&& 0 <= r.width
    &&& 0 <= r.height
}

/// Pushing a box of the playable range out of a box of the grid leaves it in
/// the playable range.
pub proof fn lemma_resolution_in_range(moving: Rect, obstacle: Rect, direction: Direction)
    requires
        moving.wf(),
        on_grid(obstacle),
    ensures
        resolution(moving, obstacle, direction) matches Some((x, y)) ==> in_range(x) && in_range(
            y,
        ) && moving.moved_to(x, y).wf(),
{
}

/// `after` lies where `before` was or further back against `direction`,
/// and has not moved along the other axis.
pub open spec fn pushed_back(before: Rect, after: Rect, direction: Direction) -> bool {
    match direction {
        Direction::North => after.top >= before.top && after.left == before.left,
        Direction::South => after.top <= before.top && after.left == before.left,
        Direction::East => after.left <= before.left && after.top == before.top,
        Direction::West => after.left >= before.left && after.top == before.top,
    }
}

/// The tiles of a map and the size of one tile in pixels.
pub struct TileMap {
    pub tiles: Vec<Tile>,
    pub tile_width: u32,
    pub tile_height: u32,
}

impl TileMap {
    pub fn new(tiles: Vec<Tile>, tile_width: u32, tile_height: u32) -> (m: TileMap)
        ensures
            m.tiles@ == tiles@,
            m.tile_width == tile_width,
            m.tile_height == tile_height,
    {
        TileMap { tiles, tile_width, tile_height }
    }

    /// The box in pixels that `tile` covers.
    pub open spec fn bounds_of(&self, tile: Tile) -> Rect {
        Rect {
            left: (tile.col * self.tile_width) as i128,
            top: (tile.row * self.tile_height) as i128,
            width: self.tile_width as i128,
            height: self.tile_height as i128,
        }
    }

    /// The box of a tile lies on the grid side of the origin, in the playable
    /// range.
    pub proof fn lemma_bounds_on_grid(&self, tile: Tile)
        ensures
            on_grid(self.bounds_of(tile)),
            self.bounds_of(tile).wf(),
            self.bounds_of(tile).left == tile.col * self.tile_width,
            self.bounds_of(tile).top == tile.row * self.tile_height,
    {
        let (c, r, w, h) = (
            tile.col as int,
            tile.row as int,
            self.tile_width as int,
            self.tile_height as int,
        );
        assert(0 <= c * w && c * w + w <= 0x1_0000_0000_0000_0000 * 0x1_0000_0000) by (
        nonlinear_arith)
            requires
                0 <= c < 0x1_0000_0000_0000_0000,
                0 <= w < 0x1_0000_0000,
        ;
        assert(0 <= r * h && r * h + h <= 0x1_0000_0000_0000_0000 * 0x1_0000_0000) by (
        nonlinear_arith)
            requires
                0 <= r < 0x1_0000_0000_0000_0000,
                0 <= h < 0x1_0000_0000,
        ;
    }

    pub fn get_tile_bounds(&self, tile: &Tile) -> (r: Rect)
        ensures
            r == self.bounds_of(*tile),
            r.wf(),
            on_grid(r),
    {
        proof {
            self.lemma_bounds_on_grid(*tile);
        }
        Rect {
            left: tile.col as i128 * self.tile_width as i128,
            top: tile.row as i128 * self.tile_height as i128,
            width: self.tile_width as i128,
            height: self.tile_height as i128,
        }
    }

    /// The tile at `(row, col)`; an empty tile when the map has none there.
    pub fn tile_at(&self, row: usize, col: usize) -> (t: Tile)
        ensures
            t == find_tile(self.tiles@, row, col),
    {
        let mut i: usize = 0;
        assert(self.tiles@.skip(0) == self.tiles@);
        while i < self.tiles.len()
            invariant
                i <= self.tiles@.len(),
                find_tile(self.tiles@, row, col) == find_tile(self.tiles@.skip(i as int), row, col),
            decreases self.tiles@.len() - i,
        {
            let tile = self.tiles[i];
            if tile.row == row && tile.col == col {
                return tile;
            }
            assert(self.tiles@.skip(i as int).drop_first() == self.tiles@.skip(i + 1));
            i += 1;
        }
        Tile { row, col, kind: TileKind::Empty }
    }

    /// Where a box travelling in `direction` ends up once it has been pushed
    /// out of each of the first `n` tiles that is a wall, in map order, each
    /// from the position the one before left it at.
    pub open spec fn settle(&self, moving: Rect, direction: Direction, n: nat) -> Rect
        decreases n,
    {
        if n == 0 {
            moving
        } else {
            let before = self.settle(moving, direction, (n - 1) as nat);
            let tile = self.tiles@[n - 1];
            if tile.kind != TileKind::Wall {
                before
            } else {
                match resolution(before, self.bounds_of(tile), direction) {
                    Some((x, y)) => before.moved_to(x, y),
                    None => before,
                }
            }
        }
    }

    /// The box `moving` after it has been pushed out of every wall of the map.
    pub open spec fn settled(&self, moving: Rect, direction: Direction) -> Rect {
        self.settle(moving, direction, self.tiles@.len())
    }

    /// Walls only ever push a box back against its direction of travel, and
    /// never along the other axis; the box stays in the playable range.
    pub proof fn lemma_walls_only_push_back(&self, moving: Rect, direction: Direction, n: nat)
        requires
            moving.wf(),
            n <= self.tiles@.len(),
        ensures
            self.settle(moving, direction, n).wf(),
            self.settle(moving, direction, n).width == moving.width,
            self.settle(moving, direction, n).height == moving.height,
            pushed_back(moving, self.settle(moving, direction, n), direction),
        decreases n,
    {
        if n > 0 {
            self.lemma_walls_only_push_back(moving, direction, (n - 1) as nat);
            let before = self.settle(moving, direction, (n - 1) as nat);
            self.lemma_bounds_on_grid(self.tiles@[n - 1]);
            lemma_resolution_in_range(before, self.bounds_of(self.tiles@[n - 1]), direction);
        }
    }

    /// A box that overlaps no wall is left where it is.
    pub proof fn lemma_clear_path(&self, moving: Rect, direction: Direction, n: nat)
        requires
            n <= self.tiles@.len(),
            forall|i: int|
                0 <= i < self.tiles@.len() && #[trigger] self.tiles@[i].kind == TileKind::Wall
                    ==> !overlaps(moving, self.bounds_of(self.tiles@[i])),
        ensures
            self.settle(moving, direction, n) == moving,
        decreases n,
    {
        if n > 0 {
            self.lemma_clear_path(moving, direction, (n - 1) as nat);
        }
    }

    /// On a map with a single wall, a box ends where resolving it against
    /// that wall puts it.
    pub proof fn lemma_single_wall(&self, moving: Rect, direction: Direction, k: int, n: nat)
        requires
            0 <= k < self.tiles@.len(),
            n <= self.tiles@.len(),
            self.tiles@[k].kind == TileKind::Wall,
            forall|i: int|
                0 <= i < self.tiles@.len() && i != k ==> #[trigger] self.tiles@[i].kind
                    != TileKind::Wall,
        ensures
            self.settle(moving, direction, n) == (if n <= k {
                moving
            } else {
                match resolution(moving, self.bounds_of(self.tiles@[k]), direction) {
                    Some((x, y)) => moving.moved_to(x, y),
                    None => moving,
                }
            }),
        decreases n,
    {
        if n > 0 {
            self.lemma_single_wall(moving, direction, k, (n - 1) as nat);
            assert(n - 1 == k || self.tiles@[n - 1].kind != TileKind::Wall);
        }
    }

    /// Pushes `moving` out of every wall it overlaps, one wall after the
    /// other in map order; tiles of other kinds are passed through.
    pub fn settle_rect(&self, moving: Rect, direction: Direction) -> (r: Rect)
        requires
            moving.wf(),
        ensures
            r == self.settled(moving, direction),
            r.wf(),
            r.width == moving.width,
            r.height == moving.height,
    {
        let mut current = moving;
        let mut i: usize = 0;
        while i < self.tiles.len()
            invariant
                i <= self.tiles@.len(),
                moving.wf(),
                current == self.settle(moving, direction, i as nat),
                current.wf(),
                current.width == moving.width,
                current.height == moving.height,
            decreases self.tiles@.len() - i,
        {
            let tile = self.tiles[i];
            if tile.kind == TileKind::Wall {
                let bounds = self.get_tile_bounds(&tile);
                proof {
                    lemma_resolution_in_range(current, bounds, direction);
                }
                match collide_rects(&current, &bounds, direction) {
                    Some((x, y)) => {
                        current = Rect {
                            left: x,
                            top: y,
                            width: current.width,
                            height: current.height,
                        };
                    },
                    None => {},
                }
            }
            i += 1;
        }
        current
    }

    /// Pushes `entity` out of every wall of the map that it overlaps.
    pub fn collide_entity_with_tiles<T: Bounded>(&self, entity: &mut T, direction: Direction)
        requires
            old(entity).spec_bounds().wf(),
        ensures
            final(entity).spec_bounds() == self.settled(old(entity).spec_bounds(), direction),
    {
        let bounds = entity.get_bounds();
        let r = self.settle_rect(bounds, direction);
        entity.set_bounds(r.left, r.top, r.width, r.height);
    }
}

/// The enemies of `enemies` that are still alive, in their order.
pub open spec fn survivors(enemies: Seq<Moblin>) -> Seq<Moblin> {
    enemies.filter(|e: Moblin| e.health > 0)
}

/// Sweeping keeps exactly the living enemies, in their order: every enemy
/// kept is alive, every living enemy is kept, nothing else comes in, and the
/// sweep of a list is the sweep of its front followed by the sweep of the
/// rest, so no two enemies change places.
pub proof fn lemma_sweep_keeps_the_living_in_order(enemies: Seq<Moblin>, i: int)
    requires
        0 <= i <= enemies.len(),
    ensures
        forall|k: int|
            0 <= k < survivors(enemies).len() ==> #[trigger] survivors(enemies)[k].health > 0,
        forall|j: int|
            0 <= j < enemies.len() && #[trigger] enemies[j].health > 0 ==> survivors(
                enemies,
            ).contains(enemies[j]),
        forall|e: Moblin| #[trigger] survivors(enemies).contains(e) ==> enemies.contains(e),
        survivors(enemies) == survivors(enemies.take(i)) + survivors(enemies.skip(i)),
        enemies.len() == 1 ==> survivors(enemies) == (if enemies[0].health > 0 {
            enemies
        } else {
            Seq::empty()
        }),
{
    broadcast use vstd::seq_lib::group_filter_ensures;
    broadcast use Seq::filter_distributes_over_add;
    broadcast use Seq::lemma_filter_contains_rev;

    assert(enemies == enemies.take(i) + enemies.skip(i));
    if enemies.len() == 1 {
        assert(enemies == Seq::<Moblin>::empty().push(enemies[0]));
        broadcast use Seq::lemma_filter_push;

    }
}

/// Removes the enemies whose health is gone, keeping the order of the rest.
pub fn sweep_dead(enemies: &mut Vec<Moblin>)
    ensures
        final(enemies)@ == survivors(old(enemies)@),
        all_wf(old(enemies)@) ==> all_wf(final(enemies)@),
{
    let ghost before = enemies@;
    let ghost mut j: int = 0;
    let mut i: usize = 0;
    assert(before.take(0) == Seq::<Moblin>::empty());
    assert(before.skip(0) == before);
    while i < enemies.len()
        invariant
            0 <= j <= before.len(),
            i == survivors(before.take(j)).len(),
            enemies@ == survivors(before.take(j)) + before.skip(j),
            all_wf(before) ==> all_wf(enemies@),
        decreases before.len() - j,
    {
        let ghost kept = survivors(before.take(j));
        assert(before.take(j + 1) == before.take(j).push(before[j]));
        broadcast use Seq::lemma_filter_push;

        assert(before.skip(j) == seq![before[j]] + before.skip(j + 1));
        assert(enemies@ == kept + seq![before[j]] + before.skip(j + 1));
        let dead = enemies[i].health <= 0;
        if dead {
            enemies.remove(i);
            assert(survivors(before.take(j + 1)) == kept);
            assert(enemies@ == kept + before.skip(j + 1));
        } else {
            assert(survivors(before.take(j + 1)) == kept.push(before[j]));
            assert(enemies@ == kept.push(before[j]) + before.skip(j + 1));
            i += 1;
        }
        proof {
            j = j + 1;
        }
    }
    assert(before.take(j) == before);
}
/// How fast the player walks, in pixels per second.
pub const PLAYER_SPEED: u64 = 200;

/// The sizes in pixels of the sprites that a world is drawn with.
#[derive(Clone, Copy, Debug, PartialEq, Eq, Structural)]
pub struct SpriteSizes {
    pub tile_width: u32,
    pub tile_height: u32,
    pub player_width: u32,
    pub player_height: u32,
    pub enemy_width: u32,
    pub enemy_height: u32,
}

/// The player as the first `n` tiles of `map` place it: at the last start
/// tile among them, or at the origin when there is none.
pub open spec fn placed_player(map: TileMap, sizes: SpriteSizes, n: nat) -> Player
    decreases n,
{
    if n == 0 {
        Player {
            entity: Entity {
                x: 0,
                y: 0,
                width: sizes.player_width as i128,
                height: sizes.player_height as i128,
                speed: PLAYER_SPEED,
                frac_x: 0,
                frac_y: 0,
            },
            active_item: None,
        }
    } else {
        let p = placed_player(map, sizes, (n - 1) as nat);
        let tile = map.tiles@[n - 1];
        if tile.kind == TileKind::PlayerStart {
            let b = map.bounds_of(tile);
            Player { entity: Entity { x: b.left, y: b.top, ..p.entity }, ..p }
        } else {
            p
        }
    }
}

/// The enemies that the first `n` tiles of `map` start, one on each enemy
/// start tile, in map order.
pub open spec fn spawned_enemies(map: TileMap, sizes: SpriteSizes, n: nat) -> Seq<Moblin>
    decreases n,
{
    if n == 0 {
        Seq::empty()
    } else {
        let enemies = spawned_enemies(map, sizes, (n - 1) as nat);
        let tile = map.tiles@[n - 1];
        if tile.kind == TileKind::EnemyStart {
            let b = map.bounds_of(tile);
            enemies.push(Moblin::spawned(b.left, b.top, sizes.enemy_width, sizes.enemy_height))
        } else {
            enemies
        }
    }
}

/// The enemies after each of them has run for a tick, the one at `i` with
/// the goal offsets at `i`.
pub open spec fn ticked_enemies(
    enemies: Seq<Moblin>,
    dt: u64,
    map: TileMap,
    offsets: Seq<(i32, i32)>,
) -> Seq<Moblin> {
    Seq::new(enemies.len(), |i: int| enemies[i].ticked(dt, map, offsets[i].0, offsets[i].1))
}

/// The map, the player, and the enemies that are still alive.
pub struct World {
    pub player: Player,
    pub enemies: Vec<Moblin>,
    pub map: TileMap,
}

impl World {
    pub open spec fn wf(&self) -> bool {
        &&& self.player.wf()
        &&& all_wf(self.enemies@)
    }

    /// Builds the world that a map text describes: the player stands on the
    /// last player start tile, and an enemy on each enemy start tile.
    pub fn new_from_text(text: &str, sizes: SpriteSizes) -> (w: World)
        ensures
            w.map.tiles@ == map_tiles(text@),
            w.map.tile_width == sizes.tile_width,
            w.map.tile_height == sizes.tile_height,
            w.player == placed_player(w.map, sizes, w.map.tiles@.len()),
            w.enemies@ == spawned_enemies(w.map, sizes, w.map.tiles@.len()),
            w.wf(),
    {
        let map = TileMap::new(parse_map(text), sizes.tile_width, sizes.tile_height);
        let mut player = Player::new(
            0,
            0,
            PLAYER_SPEED,
            sizes.player_width,
            sizes.player_height,
        );
        let mut enemies: Vec<Moblin> = Vec::new();
        let mut i: usize = 0;
        while i < map.tiles.len()
            invariant
                i <= map.tiles@.len(),
                player == placed_player(map, sizes, i as nat),
                enemies@ == spawned_enemies(map, sizes, i as nat),
                player.wf(),
                all_wf(enemies@),
            decreases map.tiles@.len() - i,
        {
            let tile = map.tiles[i];
            if tile.kind == TileKind::PlayerStart {
                let b = map.get_tile_bounds(&tile);
                player.set_x(b.left);
                player.set_y(b.top);
            } else if tile.kind == TileKind::EnemyStart {
                let b = map.get_tile_bounds(&tile);
                enemies.push(Moblin::new(b.left, b.top, sizes.enemy_width, sizes.enemy_height));
            }
            i += 1;
        }
        World { player, enemies, map }
    }

    pub fn get_tile_bounds(&self, tile: &Tile) -> (r: Rect)
        ensures
            r == self.map.bounds_of(*tile),
            r.wf(),
    {
        self.map.get_tile_bounds(tile)
    }

    /// The tile at `(row, col)`; an empty tile when the map has none there.
    pub fn tile_at(&self, row: usize, col: usize) -> (t: Tile)
        ensures
            t == find_tile(self.map.tiles@, row, col),
    {
        self.map.tile_at(row, col)
    }

    /// Pushes `entity` out of every wall of the map that it overlaps.
    pub fn collide_entity_with_tiles<T: Bounded>(&self, entity: &mut T, direction: Direction)
        requires
            old(entity).spec_bounds().wf(),
        ensures
            final(entity).spec_bounds() == self.map.settled(old(entity).spec_bounds(), direction),
    {
        self.map.collide_entity_with_tiles(entity, direction)
    }

    /// Walks the player for `dt` nanoseconds in `direction`.
    pub fn move_player(&mut self, direction: Direction, dt: u64)
        requires
            old(self).wf(),
        ensures
            final(self).player == old(self).player.spec_moved(direction, dt, old(self).map),
            final(self).enemies@ == old(self).enemies@,
            final(self).map == old(self).map,
            final(self).wf(),
    {
        self.player.move_in(direction, dt, &self.map);
    }

    /// Runs one tick of `dt` nanoseconds: the player's item acts on the
    /// enemies, each enemy then runs, the one at `i` with the goal offsets at
    /// `i`, and the dead are swept away.
    pub fn tick(&mut self, dt: u64, goal_offsets: &Vec<(i32, i32)>)
        requires
            old(self).wf(),
            goal_offsets@.len() == old(self).enemies@.len(),
        ensures
            final(self).player == old(self).player,
            final(self).map == old(self).map,
            final(self).enemies@ == survivors(
                ticked_enemies(
                    old(self).player.struck(old(self).enemies@),
                    dt,
                    old(self).map,
                    goal_offsets@,
                ),
            ),
            final(self).wf(),
    {
        self.player.tick(dt, &mut self.enemies);
        let ghost struck = self.enemies@;
        let mut i: usize = 0;
        while i < self.enemies.len()
            invariant
                self.player == old(self).player,
                self.map == old(self).map,
                self.player.wf(),
                self.enemies@.len() == struck.len(),
                struck.len() == goal_offsets@.len(),
                all_wf(struck),
                all_wf(self.enemies@),
                i <= struck.len(),
                forall|j: int|
                    0 <= j < i ==> self.enemies@[j] == (#[trigger] struck[j]).ticked(
                        dt,
                        self.map,
                        goal_offsets@[j].0,
                        goal_offsets@[j].1,
                    ),
                forall|j: int| i <= j < struck.len() ==> self.enemies@[j] == struck[j],
            decreases struck.len() - i,
        {
            let (d_row, d_col) = goal_offsets[i];
            assert(self.enemies@[i as int].wf());
            self.enemies[i].tick(dt, &self.map, d_row, d_col);
            i += 1;
        }
        assert(self.enemies@ == ticked_enemies(struck, dt, self.map, goal_offsets@));
        sweep_dead(&mut self.enemies);
    }
}
} // verus!
