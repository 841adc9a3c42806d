//! Generation of a level from a configuration and a random source.

use vstd::prelude::*;
use crate::config::{GeneratorConfig, Strategy};
use crate::dice::{draw_in_range, seeded_source};
use crate::error::ConfigError;
use crate::grid::{lemma_index_in_range, TileGrid};
use crate::layout::{
    accepted_rooms, carved, center_cell, corridors_open, inside_border, is_rooms_layout,
    is_splatter_layout, lemma_accepted_rooms, lemma_carved_empty, lemma_center_is_floor,
    lemma_corridors_open, lemma_first_room, lemma_rooms_keep_border, pairwise_disjoint,
    shows_rooms,
};
use crate::rect::{midpoint, Rect};
use crate::rooms::{place_room, seal_border};
use crate::splatter::{lemma_splatter_step, open_floor, shows_splatter, splatter_wall};
use crate::tile::TileClassification;

verus! {

/// Whether the room has a size that the configuration allows and lies inside
/// the border of the configured grid.
pub open spec fn room_fits(config: &GeneratorConfig, room: Rect) -> bool {
    &&& config.room_min_size <= room.spec_width() <= config.room_max_size
    &&& config.room_min_size <= room.spec_height() <= config.room_max_size
    &&& inside_border(room, config.grid_width as int, config.grid_height as int)
}

/// Whether every room of the list has a size that the configuration allows
/// and lies inside the border of the configured grid.
pub open spec fn all_fit(config: &GeneratorConfig, rooms: Seq<Rect>) -> bool {
    forall|i: int| 0 <= i < rooms.len() ==> room_fits(config, #[trigger] rooms[i])
}

/// Whether the sequence can be what one run draws as candidates: one
/// candidate for each attempt, each of a size and at a place that the
/// configuration allows.
pub open spec fn drawn_rooms(config: &GeneratorConfig, candidates: Seq<Rect>) -> bool {
    candidates.len() == config.max_rooms && all_fit(config, candidates)
}

/// Whether the sequence can be what one run draws as wall positions: `walls`
/// cells of the configured grid.
pub open spec fn drawn_positions(
    config: &GeneratorConfig,
    walls: int,
    positions: Seq<(usize, usize)>,
) -> bool {
    positions.len() == walls && forall|i: int|
        0 <= i < positions.len() ==> 0 <= (#[trigger] positions[i]).0 < config.grid_width && 0
            <= positions[i].1 < config.grid_height
}

/// Whether the grid and the room list are a level of the configuration: what
/// its strategy builds from some sequence of draws that the configuration
/// allows. The draws are all that the random source decides.
pub open spec fn is_generated(config: &GeneratorConfig, grid: &TileGrid, rooms: Seq<Rect>) -> bool {
    match config.strategy {
        Strategy::RoomsAndCorridors => exists|candidates: Seq<Rect>|
            #[trigger] drawn_rooms(config, candidates) && is_rooms_layout(
                config.grid_width as int,
                config.grid_height as int,
                candidates,
                grid,
                rooms,
            ),
        Strategy::Splatter { walls } => rooms.len() == 0 && exists|positions: Seq<(usize, usize)>|
            #[trigger] drawn_positions(config, walls as int, positions) && is_splatter_layout(
                config.grid_width as int,
                config.grid_height as int,
                positions,
                grid,
            ),
    }
}

/// Where the player starts: the centre of the first room, or the centre cell
/// of a scattered level. A level without rooms has no such place.
pub open spec fn spec_spawn_point(config: &GeneratorConfig, rooms: Seq<Rect>) -> Option<
    (int, int),
> {
    match config.strategy {
        Strategy::RoomsAndCorridors => if rooms.len() > 0 {
            Some(rooms[0].spec_center())
        } else {
            None
        },
        Strategy::Splatter { .. } => Some(
            center_cell(config.grid_width as int, config.grid_height as int),
        ),
    }
}

/// Whether the configuration makes every room wide and high enough to hold
/// its own centre. A room of size one has no interior.
pub open spec fn rooms_hold_center(config: &GeneratorConfig) -> bool {
    config.strategy == Strategy::RoomsAndCorridors ==> config.room_min_size >= 2
}

/// What holds of every level of a valid configuration, whatever the random
/// source draws: the grid has the configured dimensions and its outer ring is
/// all wall; no two rooms intersect; every room has an allowed size and lies
/// inside the border; there are at most `max_rooms` rooms, and at least one
/// if an attempt is made; every corridor cell is floor; and the starting
/// place is a floor cell, provided the rooms are large enough to hold their
/// centre.
pub open spec fn level_guarantees(
    config: &GeneratorConfig,
    grid: &TileGrid,
    rooms: Seq<Rect>,
) -> bool {
    &&& grid.wf()
    &&& grid.spec_width() == config.grid_width
    &&& grid.spec_height() == config.grid_height
    &&& grid.perimeter_is_wall()
    &&& pairwise_disjoint(rooms)
    &&& all_fit(config, rooms)
    &&& rooms.len() <= config.max_rooms
    &&& (config.strategy == Strategy::RoomsAndCorridors && config.max_rooms > 0 ==> rooms.len()
        > 0)
    &&& corridors_open(grid, rooms)
    &&& (rooms_hold_center(config) ==> match spec_spawn_point(config, rooms) {
        Some(p) => grid.in_bounds(p.0, p.1) && grid.tile_at(p.0, p.1)
            == TileClassification::Floor,
        None => true,
    })
}

/// Every level of a valid configuration has what [`level_guarantees`] lists.
pub proof fn lemma_generated_level(config: &GeneratorConfig, grid: &TileGrid, rooms: Seq<Rect>)
    requires
        config.valid(),
        is_generated(config, grid, rooms),
    ensures
        level_guarantees(config, grid, rooms),
{
    let width = config.grid_width as int;
    let height = config.grid_height as int;
    match config.strategy {
        Strategy::RoomsAndCorridors => {
            let candidates = choose|candidates: Seq<Rect>|
                #[trigger] drawn_rooms(config, candidates) && is_rooms_layout(
                    width,
                    height,
                    candidates,
                    grid,
                    rooms,
                );
            lemma_accepted_rooms(width, height, candidates);
            assert forall|i: int| 0 <= i < rooms.len() implies room_fits(
                config,
                #[trigger] rooms[i],
            ) by {
                assert(candidates.contains(rooms[i]));
                let j = choose|j: int| 0 <= j < candidates.len() && candidates[j] == rooms[i];
                assert(room_fits(config, candidates[j]));
            }
            if config.max_rooms > 0 {
                assert(room_fits(config, candidates[0]));
                lemma_first_room(width, height, candidates);
            }
            lemma_rooms_keep_border(grid, rooms);
            lemma_corridors_open(grid, rooms);
            if rooms.len() > 0 && config.room_min_size >= 2 {
                assert(room_fits(config, rooms[0]));
                lemma_center_is_floor(grid, rooms, 0);
            }
        },
        Strategy::Splatter { walls } => {
            let c = center_cell(width, height);
            assert(grid.in_bounds(c.0, c.1));
            assert(!grid.on_perimeter(c.0, c.1));
            assert(grid.tile_at(c.0, c.1) == TileClassification::Floor);
        },
    }
}

/// Draws one candidate room: first its width, then its height, then the
/// column and the row of its top-left corner, chosen so that the room lies
/// inside the border.
fn draw_room(config: &GeneratorConfig, rng: &mut rltk::RandomNumberGenerator) -> (room: Rect)
    requires
        config.valid(),
        config.strategy == Strategy::RoomsAndCorridors,
    ensures
        room_fits(config, room),
{
    let width: i32 = draw_in_range(rng, config.room_min_size, config.room_max_size + 1);
    let height: i32 = draw_in_range(rng, config.room_min_size, config.room_max_size + 1);
    let x: i32 = draw_in_range(rng, 1, config.grid_width - 1 - width);
    let y: i32 = draw_in_range(rng, 1, config.grid_height - 1 - height);
    Rect { x1: x, y1: y, x2: x + width, y2: y + height }
}

/// Runs the rooms-and-corridors strategy: `max_rooms` times, draws a
/// candidate and tries to place it; then walls the outer ring.
fn generate_rooms(config: &GeneratorConfig, rng: &mut rltk::RandomNumberGenerator) -> (r: Result<
    (TileGrid, Vec<Rect>),
    ConfigError,
>)
    requires
        config.valid(),
        config.strategy == Strategy::RoomsAndCorridors,
    ensures
        r matches Ok((grid, rooms)) && is_generated(config, &grid, rooms@),
{
    let mut grid = match TileGrid::new(
        config.grid_width as usize,
        config.grid_height as usize,
        TileClassification::Wall,
    ) {
        Ok(grid) => grid,
        Err(e) => {
            return Err(e);
        },
    };
    let mut rooms: Vec<Rect> = Vec::new();
    let ghost mut candidates: Seq<Rect> = Seq::empty();
    proof {
        assert forall|x: int, y: int| grid.in_bounds(x, y) implies #[trigger] grid.tile_at(x, y)
            == TileClassification::Wall by {
            lemma_index_in_range(grid.spec_width(), grid.spec_height(), x, y);
        }
        assert forall|x: int, y: int| !carved(rooms@, x, y) by {
            lemma_carved_empty(x, y);
        }
    }
    let mut attempt: usize = 0;
    while attempt < config.max_rooms
        invariant
            config.valid(),
            config.strategy == Strategy::RoomsAndCorridors,
            0 <= attempt <= config.max_rooms,
            grid.wf(),
            grid.spec_width() == config.grid_width,
            grid.spec_height() == config.grid_height,
            candidates.len() == attempt,
            all_fit(config, candidates),
            rooms@ == accepted_rooms(
                config.grid_width as int,
                config.grid_height as int,
                candidates,
            ),
            shows_rooms(&grid, rooms@),
        decreases config.max_rooms - attempt,
    {
        let candidate: Rect = draw_room(config, rng);
        proof {
            assert(candidates.push(candidate).drop_last() =~= candidates);
        }
        let _ = place_room(&mut grid, &mut rooms, candidate);
        proof {
            candidates = candidates.push(candidate);
        }
        attempt = attempt + 1;
    }
    proof {
        lemma_accepted_rooms(config.grid_width as int, config.grid_height as int, candidates);
    }
    seal_border(&mut grid, &rooms);
    proof {
        assert(drawn_rooms(config, candidates) && is_rooms_layout(
            config.grid_width as int,
            config.grid_height as int,
            candidates,
            &grid,
            rooms@,
        ));
    }
    Ok((grid, rooms))
}

/// Runs the scatter strategy: `walls` times, draws a column, then a row, and
/// walls that cell unless it is the centre; then walls the outer ring.
fn generate_splatter(
    config: &GeneratorConfig,
    walls: usize,
    rng: &mut rltk::RandomNumberGenerator,
) -> (r: Result<(TileGrid, Vec<Rect>), ConfigError>)
    requires
        config.valid(),
        config.strategy == (Strategy::Splatter { walls }),
    ensures
        r matches Ok((grid, rooms)) && is_generated(config, &grid, rooms@),
{
    let mut grid = match open_floor(config.grid_width as usize, config.grid_height as usize) {
        Ok(grid) => grid,
        Err(e) => {
            return Err(e);
        },
    };
    let ghost mut positions: Seq<(usize, usize)> = Seq::empty();
    let mut drawn: usize = 0;
    while drawn < walls
        invariant
            config.valid(),
            0 <= drawn <= walls,
            grid.wf(),
            grid.spec_width() == config.grid_width,
            grid.spec_height() == config.grid_height,
            drawn_positions(config, drawn as int, positions),
            shows_splatter(&grid, positions),
        decreases walls - drawn,
    {
        let ghost before = grid;
        let x: usize = draw_in_range(rng, 0, config.grid_width) as usize;
        let y: usize = draw_in_range(rng, 0, config.grid_height) as usize;
        splatter_wall(&mut grid, x, y);
        proof {
            lemma_splatter_step(&before, &grid, positions, (x, y));
            positions = positions.push((x, y));
        }
        drawn = drawn + 1;
    }
    grid.border_walls();
    let rooms: Vec<Rect> = Vec::new();
    proof {
        assert(is_splatter_layout(
            config.grid_width as int,
            config.grid_height as int,
            positions,
            &grid,
        ));
        assert(config.strategy->walls == walls);
        assert(exists|ps: Seq<(usize, usize)>|
            #[trigger] drawn_positions(config, walls as int, ps) && is_splatter_layout(
                config.grid_width as int,
                config.grid_height as int,
                ps,
                &grid,
            ));
    }
    Ok((grid, rooms))
}

/// Generates a level from the configuration, drawing from the given random
/// source. The configuration is checked before anything is drawn or built,
/// and rejected exactly when it is invalid, with the first error in the order
/// of the checks. The level is what the strategy builds from the draws.
pub fn generate_with(config: &GeneratorConfig, rng: &mut rltk::RandomNumberGenerator) -> (r:
    Result<(TileGrid, Vec<Rect>), ConfigError>)
    ensures
        match r {
            Ok((grid, rooms)) => {
                &&& config.valid()
                &&& is_generated(config, &grid, rooms@)
                &&& level_guarantees(config, &grid, rooms@)
            },
            Err(e) => config.first_error() == Some(e),
        },
{
    match config.validate() {
        Err(e) => {
            return Err(e);
        },
        Ok(_) => {},
    }
    let built = match config.strategy {
        Strategy::RoomsAndCorridors => generate_rooms(config, rng),
        Strategy::Splatter { walls } => generate_splatter(config, walls, rng),
    };
    match built {
        Ok((grid, rooms)) => {
            proof {
                lemma_generated_level(config, &grid, rooms@);
            }
            Ok((grid, rooms))
        },
        Err(e) => Err(e),
    }
}

/// Generates a level from the configuration, drawing from a random source
/// seeded with `rng_seed`. The contract is that of [`generate_with`].
pub fn generate(config: &GeneratorConfig) -> (r: Result<(TileGrid, Vec<Rect>), ConfigError>)
    ensures
        match r {
            Ok((grid, rooms)) => {
                &&& config.valid()
                &&& is_generated(config, &grid, rooms@)
                &&& level_guarantees(config, &grid, rooms@)
            },
            Err(e) => config.first_error() == Some(e),
        },
{
    match config.validate() {
        Err(e) => {
            return Err(e);
        },
        Ok(_) => {},
    }
    let mut rng = seeded_source(config.rng_seed);
    generate_with(config, &mut rng)
}

/// Whether `p` is the starting place of a level with the given rooms.
pub open spec fn names_spawn(
    p: Option<(i32, i32)>,
    config: &GeneratorConfig,
    rooms: Seq<Rect>,
) -> bool {
    match p {
        Some(at) => spec_spawn_point(config, rooms) == Some((at.0 as int, at.1 as int)),
        None => spec_spawn_point(config, rooms) is None,
    }
}

/// Returns where the player starts in a level with the given rooms: the
/// centre of the first room, or the centre cell of a scattered level.
pub fn spawn_point(config: &GeneratorConfig, rooms: &Vec<Rect>) -> (p: Option<(i32, i32)>)
    ensures
        names_spawn(p, config, rooms@),
{
    match config.strategy {
        Strategy::RoomsAndCorridors => {
            if rooms.len() > 0 {
                Some(rooms[0].center())
            } else {
                None
            }
        },
        Strategy::Splatter { .. } => Some(
            (midpoint(0, config.grid_width), midpoint(0, config.grid_height)),
        ),
    }
}

} // verus!
