use vstd::prelude::*;

use crate::color::Color;
use crate::game::Game;
use crate::map::TileMap;

verus! {

/// Something drawn on the map: the player or another character.
#[derive(Clone, Copy, Debug, PartialEq, Eq, Structural)]
pub struct Object {
    pub x: i32,
    pub y: i32,
    pub ch: char,
    pub color: Color,
}

impl Object {
    /// `self` after an attempt to step by `(dx, dy)` on `map`: the step is
    /// taken when its destination is walkable, and ignored otherwise.
    pub open spec fn moved_by(self, dx: int, dy: int, map: TileMap) -> Object {
        if map.walkable(self.x + dx, self.y + dy) {
            Object { x: (self.x + dx) as i32, y: (self.y + dy) as i32, ..self }
        } else {
            self
        }
    }

    pub fn new(x: i32, y: i32, ch: char, color: Color) -> (o: Object)
        ensures
            o == (Object { x, y, ch, color }),
    {
        Object { x, y, ch, color }
    }

    /// Moves by `(dx, dy)` if the destination lies on the map and is not
    /// blocked; otherwise does nothing.
    pub fn move_to(&mut self, dx: i32, dy: i32, game: &Game)
        requires
            game.map.wf(),
        ensures
            *final(self) == old(self).moved_by(dx as int, dy as int, game.map),
    {
        let new_x: i64 = self.x as i64 + dx as i64;
        let new_y: i64 = self.y as i64 + dy as i64;
        if game.map.is_walkable(new_x, new_y) {
            self.x = new_x as i32;
            self.y = new_y as i32;
        }
    }
}

/// A step of one cell in one of the four directions.
pub open spec fn is_unit_step(dx: int, dy: int) -> bool {
    (dx == 0 && (dy == 1 || dy == -1)) || (dy == 0 && (dx == 1 || dx == -1))
}

/// A unit step onto a cell that lies on the map and is not blocked moves the
/// object by exactly that step, and changes nothing else about it.
pub proof fn lemma_step_onto_open_tile(o: Object, dx: int, dy: int, map: TileMap)
    requires
        map.wf(),
        is_unit_step(dx, dy),
        map.in_bounds(o.x + dx, o.y + dy),
        !map.tile_at(o.x + dx, o.y + dy).blocked,
    ensures
        o.moved_by(dx, dy, map).x == o.x + dx,
        o.moved_by(dx, dy, map).y == o.y + dy,
        o.moved_by(dx, dy, map).ch == o.ch,
        o.moved_by(dx, dy, map).color == o.color,
{
    map.lemma_sides_fit();
}

/// A step onto a blocked tile leaves the object where it was.
pub proof fn lemma_step_onto_blocked_tile(o: Object, dx: int, dy: int, map: TileMap)
    requires
        map.wf(),
        map.in_bounds(o.x + dx, o.y + dy),
        map.tile_at(o.x + dx, o.y + dy).blocked,
    ensures
        o.moved_by(dx, dy, map) == o,
{
}

/// A step whose destination lies outside the map leaves the object where it was.
pub proof fn lemma_step_off_map(o: Object, dx: int, dy: int, map: TileMap)
    requires
        map.wf(),
        !map.in_bounds(o.x + dx, o.y + dy),
    ensures
        o.moved_by(dx, dy, map) == o,
{
}

} // verus!
