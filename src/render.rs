use vstd::prelude::*;

use crate::color::Color;
use crate::game::Game;
use crate::grid::{lemma_index_in_range, lemma_index_injective};
use crate::map::TileMap;
use crate::object::Object;
use crate::tile::Tile;

verus! {

/// What one position of a frame shows: a glyph in a foreground colour over a
/// background colour.
#[derive(Clone, Copy, Debug, PartialEq, Eq, Structural)]
pub struct Cell {
    pub ch: char,
    pub fg: Color,
    pub bg: Color,
}

/// A cleared cell: a space, white on black.
pub open spec fn blank_cell() -> Cell {
    Cell {
        ch: ' ',
        fg: Color { r: 255, g: 255, b: 255 },
        bg: Color { r: 0, g: 0, b: 0 },
    }
}

/// The background a tile is painted with: `wall` where it blocks sight,
/// `ground` elsewhere.
pub open spec fn background_for(tile: Tile, wall: Color, ground: Color) -> Color {
    if tile.block_sight {
        wall
    } else {
        ground
    }
}

/// The last object of `objs` that stands at `(x, y)`, if any: the one drawn
/// on top there.
pub open spec fn top_object(objs: Seq<Object>, x: int, y: int) -> Option<Object>
    decreases objs.len(),
{
    if objs.len() == 0 {
        None
    } else if objs.last().x == x && objs.last().y == y {
        Some(objs.last())
    } else {
        top_object(objs.drop_last(), x, y)
    }
}

/// The cell `before` with the topmost object of `objs` at `(x, y)`, if any,
/// drawn over it: its glyph and colour, over the background `before` has.
pub open spec fn drawn_cell(before: Cell, objs: Seq<Object>, x: int, y: int) -> Cell {
    match top_object(objs, x, y) {
        Some(o) => Cell { ch: o.ch, fg: o.color, bg: before.bg },
        None => before,
    }
}

/// The cell `before` with the tile under it painted, before any object is drawn.
pub open spec fn painted(before: Cell, tile: Tile, wall: Color, ground: Color) -> Cell {
    Cell { bg: background_for(tile, wall, ground), ..before }
}

/// The cell at `(x, y)` after rendering `map` and `objs` onto a frame where it
/// was `before`: painted by its tile where the map has one, kept as it was
/// elsewhere, and in both cases with the objects drawn over it in order.
pub open spec fn rendered_cell(
    before: Cell,
    map: TileMap,
    objs: Seq<Object>,
    x: int,
    y: int,
    wall: Color,
    ground: Color,
) -> Cell {
    let base = if map.in_bounds(x, y) {
        painted(before, map.tile_at(x, y), wall, ground)
    } else {
        before
    };
    drawn_cell(base, objs, x, y)
}

/// A cell with `o` drawn over it when `o` stands at `(x, y)`: glyph and
/// foreground change, the background stays.
pub open spec fn drawn_over(c: Cell, o: Object, x: int, y: int) -> Cell {
    if o.x == x && o.y == y {
        Cell { ch: o.ch, fg: o.color, bg: c.bg }
    } else {
        c
    }
}

/// An off-screen buffer of cells, stored row by row.
pub struct Frame {
    width: usize,
    height: usize,
    cells: Vec<Cell>,
}

impl Frame {
    /// The buffer holds one cell per position and both sides fit an `i32`.
    pub closed spec fn wf(&self) -> bool {
        &&& self.width <= i32::MAX
        &&& self.height <= i32::MAX
        &&& self.width * self.height <= usize::MAX
        &&& self.cells@.len() == self.width * self.height
    }

    pub closed spec fn spec_width(&self) -> int {
        self.width as int
    }

    pub closed spec fn spec_height(&self) -> int {
        self.height as int
    }

    /// The cell at column `x`, row `y`; meaningful inside the bounds.
    pub closed spec fn cell_at(&self, x: int, y: int) -> Cell {
        self.cells@[y * self.width + x]
    }

    pub open spec fn in_bounds(&self, x: int, y: int) -> bool {
        0 <= x < self.spec_width() && 0 <= y < self.spec_height()
    }

    /// `self` has the sides of `other` and differs from it at most at `(x, y)`,
    /// where it holds `c`.
    pub open spec fn is_update_of(self, other: Frame, x: int, y: int, c: Cell) -> bool {
        &&& self.wf()
        &&& self.spec_width() == other.spec_width()
        &&& self.spec_height() == other.spec_height()
        &&& self.cell_at(x, y) == c
        &&& forall|a: int, b: int|
            self.in_bounds(a, b) && !(a == x && b == y) ==> #[trigger] self.cell_at(a, b)
                == other.cell_at(a, b)
    }

    /// `self` is what rendering `map` and `objs` onto `before` gives: same
    /// sides, and each cell as `rendered_cell` says, inside the map and
    /// outside it.
    pub open spec fn is_render_of(
        self,
        before: Frame,
        map: TileMap,
        objs: Seq<Object>,
        wall: Color,
        ground: Color,
    ) -> bool {
        &&& self.wf()
        &&& self.spec_width() == before.spec_width()
        &&& self.spec_height() == before.spec_height()
        &&& forall|x: int, y: int|
            self.in_bounds(x, y) ==> #[trigger] self.cell_at(x, y) == rendered_cell(
                before.cell_at(x, y),
                map,
                objs,
                x,
                y,
                wall,
                ground,
            )
    }

    /// A `width` by `height` frame of blank cells.
    pub fn new(width: i32, height: i32) -> (f: Frame)
        requires
            0 <= width,
            0 <= height,
            width * height <= usize::MAX,
        ensures
            f.wf(),
            f.spec_width() == width,
            f.spec_height() == height,
            forall|x: int, y: int| f.in_bounds(x, y) ==> #[trigger] f.cell_at(x, y) == blank_cell(),
    {
        let n: usize = width as usize * height as usize;
        let mut cells: Vec<Cell> = Vec::new();
        let mut i: usize = 0;
        while i < n
            invariant
                i <= n,
                cells@.len() == i,
                forall|k: int| 0 <= k < i ==> #[trigger] cells@[k] == blank_cell(),
            decreases n - i,
        {
            cells.push(Cell::blank());
            i = i + 1;
        }
        let f = Frame { width: width as usize, height: height as usize, cells };
        proof {
            assert forall|x: int, y: int| f.in_bounds(x, y) implies #[trigger] f.cell_at(x, y)
                == blank_cell() by {
                lemma_index_in_range(x, y, width as int, height as int);
            }
        }
        f
    }

    pub fn width(&self) -> (r: i32)
        requires
            self.wf(),
        ensures
            r == self.spec_width(),
    {
        self.width as i32
    }

    pub fn height(&self) -> (r: i32)
        requires
            self.wf(),
        ensures
            r == self.spec_height(),
    {
        self.height as i32
    }

    pub fn cell(&self, x: i32, y: i32) -> (c: Cell)
        requires
            self.wf(),
            self.in_bounds(x as int, y as int),
        ensures
            c == self.cell_at(x as int, y as int),
    {
        proof {
            lemma_index_in_range(x as int, y as int, self.width as int, self.height as int);
        }
        self.cells[y as usize * self.width + x as usize]
    }

    /// Makes every cell blank.
    pub fn clear(&mut self)
        requires
            old(self).wf(),
        ensures
            final(self).wf(),
            final(self).spec_width() == old(self).spec_width(),
            final(self).spec_height() == old(self).spec_height(),
            forall|x: int, y: int|
                final(self).in_bounds(x, y) ==> #[trigger] final(self).cell_at(x, y) == blank_cell(),
    {
        let n = self.cells.len();
        let mut i: usize = 0;
        while i < n
            invariant
                i <= n,
                n == old(self).cells@.len(),
                self.width == old(self).width,
                self.height == old(self).height,
                self.cells@.len() == n,
                forall|k: int| 0 <= k < i ==> #[trigger] self.cells@[k] == blank_cell(),
            decreases n - i,
        {
            self.cells.set(i, Cell::blank());
            i = i + 1;
        }
        proof {
            assert forall|x: int, y: int| self.in_bounds(x, y) implies #[trigger] self.cell_at(x, y)
                == blank_cell() by {
                lemma_index_in_range(x, y, self.width as int, self.height as int);
            }
        }
    }

    fn set_cell(&mut self, x: i32, y: i32, c: Cell)
        requires
            old(self).wf(),
            old(self).in_bounds(x as int, y as int),
        ensures
            final(self).is_update_of(*old(self), x as int, y as int, c),
    {
        proof {
            lemma_index_in_range(x as int, y as int, self.width as int, self.height as int);
        }
        let i = y as usize * self.width + x as usize;
        self.cells.set(i, c);
        proof {
            assert forall|a: int, b: int|
                self.in_bounds(a, b) && !(a == x && b == y) implies #[trigger] self.cell_at(a, b)
                == old(self).cell_at(a, b) by {
                lemma_index_in_range(a, b, self.width as int, self.height as int);
                if b * self.width + a == i {
                    lemma_index_injective(a, b, x as int, y as int, self.width as int);
                }
            }
        }
    }

    /// Sets the background of the cell at `(x, y)`, keeping its glyph and
    /// foreground.
    pub fn set_char_background(&mut self, x: i32, y: i32, color: Color)
        requires
            old(self).wf(),
            old(self).in_bounds(x as int, y as int),
        ensures
            final(self).is_update_of(
                *old(self),
                x as int,
                y as int,
                Cell { bg: color, ..old(self).cell_at(x as int, y as int) },
            ),
    {
        let c = self.cell(x, y);
        self.set_cell(x, y, Cell { bg: color, ..c });
    }

    /// Writes glyph `ch` in colour `fg` at `(x, y)`, keeping its background.
    pub fn put_char(&mut self, x: i32, y: i32, ch: char, fg: Color)
        requires
            old(self).wf(),
            old(self).in_bounds(x as int, y as int),
        ensures
            final(self).is_update_of(
                *old(self),
                x as int,
                y as int,
                Cell { ch, fg, bg: old(self).cell_at(x as int, y as int).bg },
            ),
    {
        let c = self.cell(x, y);
        self.set_cell(x, y, Cell { ch, fg, bg: c.bg });
    }
}

impl Cell {
    pub fn blank() -> (c: Cell)
        ensures
            c == blank_cell(),
    {
        Cell {
            ch: ' ',
            fg: Color { r: 255, g: 255, b: 255 },
            bg: Color { r: 0, g: 0, b: 0 },
        }
    }
}

impl Object {
    /// Draws this object's glyph in its colour at its position, if that
    /// position lies in the frame; the background there is kept.
    pub fn draw(&self, con: &mut Frame)
        requires
            old(con).wf(),
        ensures
            final(con).wf(),
            final(con).spec_width() == old(con).spec_width(),
            final(con).spec_height() == old(con).spec_height(),
            forall|x: int, y: int|
                final(con).in_bounds(x, y) ==> #[trigger] final(con).cell_at(x, y) == drawn_over(
                    old(con).cell_at(x, y),
                    *self,
                    x,
                    y,
                ),
    {
        if 0 <= self.x && self.x < con.width() && 0 <= self.y && self.y < con.height() {
            con.put_char(self.x, self.y, self.ch, self.color);
        }
    }
}

/// Renders one frame: paints every cell of the map with the wall or ground
/// colour, by whether its tile blocks sight, then draws `objects` over the
/// frame in order, so that a later object hides an earlier one on the same
/// cell. The frame may be larger than the map; its cells beyond the map keep
/// their background.
pub fn render_all(
    con: &mut Frame,
    game: &Game,
    objects: &[Object],
    wall_color: Color,
    ground_color: Color,
)
    requires
        old(con).wf(),
        game.map.wf(),
        old(con).spec_width() >= game.map.spec_width(),
        old(con).spec_height() >= game.map.spec_height(),
    ensures
        final(con).is_render_of(*old(con), game.map, objects@, wall_color, ground_color),
{
    let w = game.map.width();
    let h = game.map.height();
    proof {
        game.map.lemma_sides_fit();
    }
    let mut y: i32 = 0;
    while y < h
        invariant
            0 <= y <= h,
            0 <= w,
            w == game.map.spec_width(),
            h == game.map.spec_height(),
            old(con).spec_width() >= w,
            old(con).spec_height() >= h,
            game.map.wf(),
            con.wf(),
            con.spec_width() == old(con).spec_width(),
            con.spec_height() == old(con).spec_height(),
            forall|a: int, b: int|
                con.in_bounds(a, b) ==> #[trigger] con.cell_at(a, b) == if a < w && b < y {
                    painted(old(con).cell_at(a, b), game.map.tile_at(a, b), wall_color, ground_color)
                } else {
                    old(con).cell_at(a, b)
                },
        decreases h - y,
    {
        let mut x: i32 = 0;
        while x < w
            invariant
                0 <= x <= w,
                0 <= y < h,
                w == game.map.spec_width(),
                h == game.map.spec_height(),
                game.map.wf(),
                con.wf(),
                con.spec_width() == old(con).spec_width(),
                con.spec_height() == old(con).spec_height(),
                old(con).spec_width() >= w,
                old(con).spec_height() >= h,
                forall|a: int, b: int|
                    con.in_bounds(a, b) ==> #[trigger] con.cell_at(a, b) == if a < w && (b < y || (
                    b == y && a < x)) {
                        painted(
                            old(con).cell_at(a, b),
                            game.map.tile_at(a, b),
                            wall_color,
                            ground_color,
                        )
                    } else {
                        old(con).cell_at(a, b)
                    },
            decreases w - x,
        {
            let tile = game.map.tile(x, y);
            let bg = if tile.block_sight {
                wall_color
            } else {
                ground_color
            };
            con.set_char_background(x, y, bg);
            x = x + 1;
        }
        y = y + 1;
    }
    let mut k: usize = 0;
    while k < objects.len()
        invariant
            0 <= k <= objects@.len(),
            con.wf(),
            con.spec_width() == old(con).spec_width(),
            con.spec_height() == old(con).spec_height(),
            forall|a: int, b: int|
                con.in_bounds(a, b) ==> #[trigger] con.cell_at(a, b) == rendered_cell(
                    old(con).cell_at(a, b),
                    game.map,
                    objects@.take(k as int),
                    a,
                    b,
                    wall_color,
                    ground_color,
                ),
        decreases objects@.len() - k,
    {
        objects[k].draw(con);
        proof {
            assert(objects@.take(k + 1).drop_last() =~= objects@.take(k as int));
        }
        k = k + 1;
    }
    proof {
        assert(objects@.take(k as int) =~= objects@);
    }
}

/// Rendering is idempotent: rendering the same map and objects onto a frame
/// that already shows them gives the very same frame again.
pub proof fn lemma_render_twice(
    before: Frame,
    once: Frame,
    twice: Frame,
    map: TileMap,
    objs: Seq<Object>,
    wall: Color,
    ground: Color,
)
    requires
        once.is_render_of(before, map, objs, wall, ground),
        twice.is_render_of(once, map, objs, wall, ground),
    ensures
        twice.spec_width() == once.spec_width(),
        twice.spec_height() == once.spec_height(),
        forall|x: int, y: int| twice.in_bounds(x, y) ==> #[trigger] twice.cell_at(x, y) == once.cell_at(x, y),
{
}

} // verus!
