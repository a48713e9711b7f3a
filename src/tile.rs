use vstd::prelude::*;

verus! {

/// One cell of the map: whether it stops movement and whether it stops sight.
#[derive(Clone, Copy, Debug, PartialEq, Eq, Structural)]
pub struct Tile {
    pub blocked: bool,
    pub block_sight: bool,
}

impl Tile {
    /// A tile is either a wall, blocking both movement and sight, or open
    /// ground, blocking neither.
    pub open spec fn wf(self) -> bool {
        self.blocked == self.block_sight
    }

    /// Open ground: neither blocks movement nor sight.
    pub fn empty() -> (t: Tile)
        ensures
            t == (Tile { blocked: false, block_sight: false }),
    {
        Tile { blocked: false, block_sight: false }
    }

    /// A wall: blocks both movement and sight.
    pub fn wall() -> (t: Tile)
        ensures
            t == (Tile { blocked: true, block_sight: true }),
    {
        Tile { blocked: true, block_sight: true }
    }
}

} // verus!
