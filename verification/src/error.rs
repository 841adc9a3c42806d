//! The two ways in which a request to this library can be refused.

use vstd::prelude::*;

verus! {

/// Why a grid or a generator configuration was rejected before any work began.
#[derive(Clone, Copy, Debug, PartialEq, Eq, Structural)]
pub enum ConfigError {
    /// The grid's width or height is zero or negative.
    EmptyGrid,
    /// The grid has more cells than a single allocation can address.
    GridTooLarge,
    /// The smallest room size is zero or negative.
    EmptyRoom,
    /// The smallest room size is greater than the largest.
    RoomSizeOrder,
    /// The grid is too small for what the strategy must place inside its border.
    GridTooSmall,
}

/// A coordinate that lies outside the grid it was used on.
#[derive(Clone, Copy, Debug, PartialEq, Eq, Structural)]
pub struct OutOfBounds {
    /// The column that was asked for.
    pub x: usize,
    /// The row that was asked for.
    pub y: usize,
}

} // verus!
