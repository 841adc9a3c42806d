//! What a caller chooses before a level is generated.

use vstd::prelude::*;
use crate::error::ConfigError;
use crate::grid::{cell_count, size_error};

verus! {

/// The policy by which a level is laid out.
#[derive(Clone, Copy, Debug, PartialEq, Eq, Structural)]
pub enum Strategy {
    /// Rectangular rooms that do not touch, each joined to the one before it
    /// by an L-shaped corridor.
    RoomsAndCorridors,
    /// An open floor over which `walls` cells are drawn at random and turned
    /// into walls, the centre of the grid excepted.
    Splatter {
        /// The number of cells that are drawn.
        walls: usize,
    },
}

/// The parameters of one generation run.
#[derive(Clone, Copy, Debug, PartialEq, Eq, Structural)]
pub struct GeneratorConfig {
    /// The number of columns of the level.
    pub grid_width: i32,
    /// The number of rows of the level.
    pub grid_height: i32,
    /// The number of room placements that are attempted.
    pub max_rooms: usize,
    /// The smallest width or height of a room.
    pub room_min_size: i32,
    /// The largest width or height of a room.
    pub room_max_size: i32,
    /// The seed of the random source.
    pub rng_seed: u64,
    /// The layout policy.
    pub strategy: Strategy,
}

impl GeneratorConfig {
    /// The first reason, in a fixed order of checks, for which the
    /// configuration is rejected, if there is one.
    ///
    /// A room must lie strictly inside the outer ring of cells, so the largest
    /// room needs three more columns and rows than its own size. The scatter
    /// strategy needs a centre cell that is not on the outer ring.
    pub open spec fn first_error(&self) -> Option<ConfigError> {
        if size_error(self.grid_width as int, self.grid_height as int) is Some {
            size_error(self.grid_width as int, self.grid_height as int)
        } else {
            match self.strategy {
                Strategy::RoomsAndCorridors => {
                    if self.room_min_size <= 0 {
                        Some(ConfigError::EmptyRoom)
                    } else if self.room_min_size > self.room_max_size {
                        Some(ConfigError::RoomSizeOrder)
                    } else if self.room_max_size > self.grid_width - 3 || self.room_max_size
                        > self.grid_height - 3 {
                        Some(ConfigError::GridTooSmall)
                    } else {
                        None
                    }
                },
                Strategy::Splatter { .. } => {
                    if self.grid_width < 3 || self.grid_height < 3 {
                        Some(ConfigError::GridTooSmall)
                    } else {
                        None
                    }
                },
            }
        }
    }

    /// Whether a level can be generated from the configuration.
    pub open spec fn valid(&self) -> bool {
        self.first_error() is None
    }

    /// Checks the configuration without allocating anything.
    pub fn validate(&self) -> (r: Result<(), ConfigError>)
        ensures
            r == (match self.first_error() {
                Some(e) => Err::<(), ConfigError>(e),
                None => Ok::<(), ConfigError>(()),
            }),
    {
        if self.grid_width <= 0 || self.grid_height <= 0 {
            return Err(ConfigError::EmptyGrid);
        }
        match cell_count(self.grid_width as usize, self.grid_height as usize) {
            Err(e) => {
                return Err(e);
            },
            Ok(_) => {},
        }
        match self.strategy {
            Strategy::RoomsAndCorridors => {
                if self.room_min_size <= 0 {
                    Err(ConfigError::EmptyRoom)
                } else if self.room_min_size > self.room_max_size {
                    Err(ConfigError::RoomSizeOrder)
                } else if self.room_max_size > self.grid_width - 3 || self.room_max_size
                    > self.grid_height - 3 {
                    Err(ConfigError::GridTooSmall)
                } else {
                    Ok(())
                }
            },
            Strategy::Splatter { .. } => {
                if self.grid_width < 3 || self.grid_height < 3 {
                    Err(ConfigError::GridTooSmall)
                } else {
                    Ok(())
                }
            },
        }
    }
}

impl Default for GeneratorConfig {
    /// An 80 by 50 level with up to 30 rooms of 6 to 10 cells a side.
    fn default() -> (c: GeneratorConfig)
        ensures
            c == (GeneratorConfig {
                grid_width: 80,
                grid_height: 50,
                max_rooms: 30,
                room_min_size: 6,
                room_max_size: 10,
                rng_seed: 0,
                strategy: Strategy::RoomsAndCorridors,
            }),
            c.valid(),
    {
        GeneratorConfig {
            grid_width: 80,
            grid_height: 50,
            max_rooms: 30,
            room_min_size: 6,
            room_max_size: 10,
            rng_seed: 0,
            strategy: Strategy::RoomsAndCorridors,
        }
    }
}

} // verus!
