//! A generated level as the game loop sees it: a grid that is read every
//! frame and never written again.

use vstd::prelude::*;
use crate::config::GeneratorConfig;
use crate::error::ConfigError;
use crate::generator::{generate, is_generated, level_guarantees, names_spawn, spawn_point};
use crate::grid::TileGrid;
use crate::rect::Rect;
use crate::tile::TileClassification;

verus! {

/// One step that an entity may ask to take.
#[derive(Clone, Copy, Debug, PartialEq, Eq, Structural)]
pub enum Direction {
    /// Towards row zero.
    Up,
    /// Away from row zero.
    Down,
    /// Towards column zero.
    Left,
    /// Away from column zero.
    Right,
}

impl Direction {
    /// The change of column and row that one step in this direction makes.
    pub open spec fn spec_delta(self) -> (int, int) {
        match self {
            Direction::Up => (0, -1),
            Direction::Down => (0, 1),
            Direction::Left => (-1, 0),
            Direction::Right => (1, 0),
        }
    }

    /// Returns the change of column and row that one step in this direction makes.
    pub fn delta(self) -> (d: (i32, i32))
        ensures
            (d.0 as int, d.1 as int) == self.spec_delta(),
    {
        match self {
            Direction::Up => (0, -1),
            Direction::Down => (0, 1),
            Direction::Left => (-1, 0),
            Direction::Right => (1, 0),
        }
    }
}

/// The level that a session plays on: the grid, the rooms it was built from
/// and the place where the player starts.
#[derive(Debug)]
pub struct LevelState {
    grid: TileGrid,
    rooms: Vec<Rect>,
    spawn: Option<(i32, i32)>,
}

impl LevelState {
    /// The grid of the level.
    pub closed spec fn spec_grid(&self) -> &TileGrid {
        &self.grid
    }

    /// The rooms of the level, in the order in which they were accepted.
    pub closed spec fn spec_rooms(&self) -> Seq<Rect> {
        self.rooms@
    }

    /// The place where the player starts, if the level has one.
    pub closed spec fn spec_spawn(&self) -> Option<(i32, i32)> {
        self.spawn
    }

    /// Whether an entity may stand on `(x, y)`: the cell exists and is floor.
    pub open spec fn walkable(&self, x: int, y: int) -> bool {
        self.spec_grid().in_bounds(x, y) && self.spec_grid().tile_at(x, y)
            == TileClassification::Floor
    }

    /// Where an entity at `from` stands after asking to step in `direction`:
    /// on the neighbouring cell if it may stand there and the cell can be
    /// named by a position, else where it was.
    pub open spec fn spec_step(&self, from: (i32, i32), direction: Direction) -> (i32, i32) {
        let x = from.0 + direction.spec_delta().0;
        let y = from.1 + direction.spec_delta().1;
        if x <= i32::MAX && y <= i32::MAX && self.walkable(x, y) {
            (x as i32, y as i32)
        } else {
            from
        }
    }

    /// Wraps a grid, a room list and a starting place as a level.
    pub fn new(grid: TileGrid, rooms: Vec<Rect>, spawn: Option<(i32, i32)>) -> (level: LevelState)
        ensures
            *level.spec_grid() == grid,
            level.spec_rooms() == rooms@,
            level.spec_spawn() == spawn,
    {
        LevelState { grid, rooms, spawn }
    }

    /// Generates the level of a configuration and finds its starting place.
    pub fn generate(config: &GeneratorConfig) -> (r: Result<LevelState, ConfigError>)
        ensures
            match r {
                Ok(level) => {
                    &&& config.valid()
                    &&& is_generated(config, level.spec_grid(), level.spec_rooms())
                    &&& level_guarantees(config, level.spec_grid(), level.spec_rooms())
                    &&& names_spawn(level.spec_spawn(), config, level.spec_rooms())
                },
                Err(e) => config.first_error() == Some(e),
            },
    {
        match generate(config) {
            Ok((grid, rooms)) => {
                let spawn = spawn_point(config, &rooms);
                Ok(LevelState { grid, rooms, spawn })
            },
            Err(e) => Err(e),
        }
    }

    /// The grid of the level.
    pub fn grid(&self) -> (grid: &TileGrid)
        ensures
            grid == self.spec_grid(),
    {
        &self.grid
    }

    /// The rooms of the level, in the order in which they were accepted.
    pub fn rooms(&self) -> (rooms: &Vec<Rect>)
        ensures
            rooms@ == self.spec_rooms(),
    {
        &self.rooms
    }

    /// The place where the player starts, if the level has one.
    pub fn spawn(&self) -> (spawn: Option<(i32, i32)>)
        ensures
            spawn == self.spec_spawn(),
    {
        self.spawn
    }

    /// Tells whether an entity may stand on `(x, y)`.
    pub fn can_occupy(&self, x: i32, y: i32) -> (b: bool)
        ensures
            b == self.walkable(x as int, y as int),
    {
        x >= 0 && y >= 0 && self.grid.can_occupy(x as usize, y as usize)
    }

    /// Resolves a request to step from `from` in `direction`: the entity
    /// moves to the neighbouring cell if it may stand there and stays where
    /// it is otherwise.
    pub fn step(&self, from: (i32, i32), direction: Direction) -> (to: (i32, i32))
        ensures
            to == self.spec_step(from, direction),
    {
        let delta: (i32, i32) = direction.delta();
        match (from.0.checked_add(delta.0), from.1.checked_add(delta.1)) {
            (Some(x), Some(y)) => {
                if self.can_occupy(x, y) {
                    (x, y)
                } else {
                    from
                }
            },
            _ => from,
        }
    }
}

} // verus!
