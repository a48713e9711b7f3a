use vstd::prelude::*;

use crate::grid::{lemma_index_in_range, lemma_index_injective};
use crate::tile::Tile;

verus! {

/// A fixed-size grid of tiles, stored row by row.
pub struct TileMap {
    width: usize,
    height: usize,
    tiles: Vec<Tile>,
}

impl TileMap {
    /// The buffer holds one well-formed tile per cell and both sides fit an
    /// `i32`.
    pub closed spec fn wf(&self) -> bool {
        &&& forall|i: int| 0 <= i < self.tiles@.len() ==> (#[trigger] self.tiles@[i]).wf()
        &&& self.width <= i32::MAX
        &&& self.height <= i32::MAX
        &&& self.width * self.height <= usize::MAX
        &&& self.tiles@.len() == self.width * self.height
    }

    pub closed spec fn spec_width(&self) -> int {
        self.width as int
    }

    pub closed spec fn spec_height(&self) -> int {
        self.height as int
    }

    /// The tile at column `x`, row `y`; meaningful inside the bounds.
    pub closed spec fn tile_at(&self, x: int, y: int) -> Tile {
        self.tiles@[y * self.width + x]
    }

    pub open spec fn in_bounds(&self, x: int, y: int) -> bool {
        0 <= x < self.spec_width() && 0 <= y < self.spec_height()
    }

    /// An object may stand at `(x, y)`: the cell exists and is not blocked.
    pub open spec fn walkable(&self, x: int, y: int) -> bool {
        self.in_bounds(x, y) && !self.tile_at(x, y).blocked
    }

    /// Both sides of a well-formed map fit an `i32`.
    pub proof fn lemma_sides_fit(&self)
        requires
            self.wf(),
        ensures
            0 <= self.spec_width() <= i32::MAX,
            0 <= self.spec_height() <= i32::MAX,
    {
    }

    pub fn width(&self) -> (r: i32)
        requires
            self.wf(),
        ensures
            r == self.spec_width(),
    {
        self.width as i32
    }

    pub fn height(&self) -> (r: i32)
        requires
            self.wf(),
        ensures
            r == self.spec_height(),
    {
        self.height as i32
    }

    pub fn tile(&self, x: i32, y: i32) -> (t: Tile)
        requires
            self.wf(),
            self.in_bounds(x as int, y as int),
        ensures
            t == self.tile_at(x as int, y as int),
            t.wf(),
    {
        proof {
            lemma_index_in_range(x as int, y as int, self.width as int, self.height as int);
        }
        self.tiles[y as usize * self.width + x as usize]
    }

    /// Replaces the tile at `(x, y)` and leaves every other cell as it was.
    pub fn set_tile(&mut self, x: i32, y: i32, tile: Tile)
        requires
            old(self).wf(),
            old(self).in_bounds(x as int, y as int),
            tile.wf(),
        ensures
            final(self).wf(),
            final(self).spec_width() == old(self).spec_width(),
            final(self).spec_height() == old(self).spec_height(),
            final(self).tile_at(x as int, y as int) == tile,
            forall|a: int, b: int|
                final(self).in_bounds(a, b) && !(a == x && b == y)
                    ==> #[trigger] final(self).tile_at(a, b) == old(self).tile_at(a, b),
    {
        proof {
            lemma_index_in_range(x as int, y as int, self.width as int, self.height as int);
        }
        let i = y as usize * self.width + x as usize;
        self.tiles.set(i, tile);
        proof {
            assert forall|a: int, b: int|
                self.in_bounds(a, b) && !(a == x && b == y) implies #[trigger] self.tile_at(a, b)
                == old(self).tile_at(a, b) by {
                lemma_index_in_range(a, b, self.width as int, self.height as int);
                if b * self.width + a == i {
                    lemma_index_injective(a, b, x as int, y as int, self.width as int);
                }
            }
        }
    }

    /// Whether an object may move onto `(x, y)`. Coordinates are taken wide so
    /// that any `i32` position plus any `i32` step can be asked about.
    pub fn is_walkable(&self, x: i64, y: i64) -> (r: bool)
        requires
            self.wf(),
        ensures
            r == self.walkable(x as int, y as int),
    {
        if 0 <= x && x < self.width as i64 && 0 <= y && y < self.height as i64 {
            !self.tile(x as i32, y as i32).blocked
        } else {
            false
        }
    }
}

/// A `map_w` by `map_h` map in which every tile is open ground.
pub fn make_map(map_w: i32, map_h: i32) -> (m: TileMap)
    requires
        0 <= map_w,
        0 <= map_h,
        map_w * map_h <= usize::MAX,
    ensures
        m.wf(),
        m.spec_width() == map_w,
        m.spec_height() == map_h,
        forall|x: int, y: int| m.in_bounds(x, y) ==> (#[trigger] m.tile_at(x, y)).wf(),
        forall|x: int, y: int|
            m.in_bounds(x, y) ==> #[trigger] m.tile_at(x, y) == (Tile {
                blocked: false,
                block_sight: false,
            }),
{
    let n: usize = map_w as usize * map_h as usize;
    let mut tiles: Vec<Tile> = Vec::new();
    let mut i: usize = 0;
    while i < n
        invariant
            i <= n,
            tiles@.len() == i,
            forall|k: int| 0 <= k < i ==> #[trigger] tiles@[k] == (Tile { blocked: false, block_sight: false }),
        decreases n - i,
    {
        tiles.push(Tile::empty());
        i = i + 1;
    }
    let m = TileMap { width: map_w as usize, height: map_h as usize, tiles };
    proof {
        assert forall|x: int, y: int| m.in_bounds(x, y) implies #[trigger] m.tile_at(x, y) == (Tile {
            blocked: false,
            block_sight: false,
        }) by {
            lemma_index_in_range(x, y, map_w as int, map_h as int);
        }
    }
    m
}

} // verus!
