//! The classification of a single grid cell.

use vstd::prelude::*;

verus! {

/// What occupies one cell of a level.
#[derive(Clone, Copy, Debug, PartialEq, Eq, Structural)]
pub enum TileClassification {
    /// Open ground that an entity may stand on.
    Floor,
    /// Solid rock that blocks movement.
    Wall,
}

impl TileClassification {
    /// True when an entity may stand on a tile of this kind.
    pub open spec fn walkable(self) -> bool {
        self == TileClassification::Floor
    }

    /// Tells whether an entity may stand on a tile of this kind.
    pub fn is_walkable(self) -> (b: bool)
        ensures
            b == self.walkable(),
    {
        match self {
            TileClassification::Floor => true,
            TileClassification::Wall => false,
        }
    }
}

} // verus!
