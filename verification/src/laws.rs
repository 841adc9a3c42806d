//! Laws that relate the functions of this library to one another.

use vstd::prelude::*;
use crate::config::{GeneratorConfig, Strategy};
use crate::generator::{is_generated, lemma_generated_level, room_fits};
use crate::grid::{lemma_index_in_range, lemma_same_tiles, TileGrid};
use crate::layout::{
    between, carved, corridor_to, in_some_room, is_rooms_layout, is_splatter_layout, on_corridor,
    on_some_corridor,
};
use crate::rect::Rect;
use crate::tile::TileClassification;

verus! {

/// Splitting the row-major place of a cell by the width of the grid gives the
/// column as the remainder and the row as the quotient.
pub proof fn index_round_trip(grid: &TileGrid, x: int, y: int)
    requires
        grid.wf(),
        grid.in_bounds(x, y),
    ensures
        0 <= grid.spec_index(x, y) < grid@.len(),
        grid.spec_index(x, y) % grid.spec_width() == x,
        grid.spec_index(x, y) / grid.spec_width() == y,
{
    lemma_index_in_range(grid.spec_width(), grid.spec_height(), x, y);
}

/// The dimensions and the candidates fix the level: two levels built from
/// the same candidates on grids of the same dimensions have the same room
/// list and the same tiles.
pub proof fn same_candidates_same_level(
    width: int,
    height: int,
    candidates: Seq<Rect>,
    first_grid: &TileGrid,
    first_rooms: Seq<Rect>,
    second_grid: &TileGrid,
    second_rooms: Seq<Rect>,
)
    requires
        is_rooms_layout(width, height, candidates, first_grid, first_rooms),
        is_rooms_layout(width, height, candidates, second_grid, second_rooms),
    ensures
        first_rooms == second_rooms,
        first_grid@ == second_grid@,
{
    lemma_same_tiles(first_grid, second_grid);
}

/// The dimensions and the wall positions fix the scattered level: two levels
/// built from the same positions on grids of the same dimensions have the
/// same tiles.
pub proof fn same_positions_same_level(
    width: int,
    height: int,
    positions: Seq<(usize, usize)>,
    first_grid: &TileGrid,
    second_grid: &TileGrid,
)
    requires
        is_splatter_layout(width, height, positions, first_grid),
        is_splatter_layout(width, height, positions, second_grid),
    ensures
        first_grid@ == second_grid@,
{
    lemma_same_tiles(first_grid, second_grid);
}

/// Where the smallest and the largest room size are equal, every room of a
/// generated level is a square of that size.
pub proof fn equal_bounds_fix_room_size(
    config: &GeneratorConfig,
    grid: &TileGrid,
    rooms: Seq<Rect>,
    i: int,
)
    requires
        config.valid(),
        is_generated(config, grid, rooms),
        config.room_min_size == config.room_max_size,
        0 <= i < rooms.len(),
    ensures
        rooms[i].spec_width() == config.room_min_size,
        rooms[i].spec_height() == config.room_min_size,
{
    lemma_generated_level(config, grid, rooms);
    assert(room_fits(config, rooms[i]));
}

/// A single attempt gives a single room and no corridor: the floor of the
/// level is the interior of that room and nothing else.
pub proof fn single_attempt_single_room(config: &GeneratorConfig, grid: &TileGrid, rooms: Seq<Rect>)
    requires
        config.valid(),
        config.strategy == Strategy::RoomsAndCorridors,
        config.max_rooms == 1,
        is_generated(config, grid, rooms),
    ensures
        rooms.len() == 1,
        forall|x: int, y: int| !on_some_corridor(rooms, x, y),
        forall|x: int, y: int|
            grid.in_bounds(x, y) ==> (#[trigger] grid.tile_at(x, y) == TileClassification::Floor
                <==> rooms[0].interior_contains(x, y)),
{
    lemma_generated_level(config, grid, rooms);
    assert forall|x: int, y: int| grid.in_bounds(x, y) implies (#[trigger] grid.tile_at(x, y)
        == TileClassification::Floor <==> rooms[0].interior_contains(x, y)) by {
        if rooms[0].interior_contains(x, y) {
            assert(in_some_room(rooms, x, y));
        }
        assert(carved(rooms, x, y) <==> rooms[0].interior_contains(x, y));
    }
}

/// A corridor is one unbroken path: it runs along the row of its first end
/// to the column of its second end, turns there, and runs along that column
/// to the second end. Both ends and the turn lie on it.
pub proof fn corridor_joins_its_ends(from: (int, int), to: (int, int))
    ensures
        on_corridor(from, to, from.0, from.1),
        on_corridor(from, to, to.0, from.1),
        on_corridor(from, to, to.0, to.1),
        forall|x: int| between(from.0, to.0, x) ==> on_corridor(from, to, x, from.1),
        forall|y: int| between(from.1, to.1, y) ==> on_corridor(from, to, to.0, y),
{
}

/// In a generated level every room after the first is joined to the room
/// before it by floor: each cell of the row of the earlier centre between
/// the two centres' columns, and each cell of the column of the later centre
/// between the two centres' rows.
pub proof fn consecutive_rooms_are_joined(
    config: &GeneratorConfig,
    grid: &TileGrid,
    rooms: Seq<Rect>,
    i: int,
)
    requires
        config.valid(),
        is_generated(config, grid, rooms),
        0 < i < rooms.len(),
    ensures
        forall|x: int|
            between(rooms[i - 1].spec_center().0, rooms[i].spec_center().0, x) ==> grid.in_bounds(
                x,
                rooms[i - 1].spec_center().1,
            ) && #[trigger] grid.tile_at(x, rooms[i - 1].spec_center().1)
                == TileClassification::Floor,
        forall|y: int|
            between(rooms[i - 1].spec_center().1, rooms[i].spec_center().1, y) ==> grid.in_bounds(
                rooms[i].spec_center().0,
                y,
            ) && #[trigger] grid.tile_at(rooms[i].spec_center().0, y)
                == TileClassification::Floor,
{
    lemma_generated_level(config, grid, rooms);
    let from = rooms[i - 1].spec_center();
    let to = rooms[i].spec_center();
    assert forall|x: int| between(from.0, to.0, x) implies grid.in_bounds(x, from.1)
        && #[trigger] grid.tile_at(x, from.1) == TileClassification::Floor by {
        assert(corridor_to(rooms, i, x, from.1));
    }
    assert forall|y: int| between(from.1, to.1, y) implies grid.in_bounds(to.0, y)
        && #[trigger] grid.tile_at(to.0, y) == TileClassification::Floor by {
        assert(corridor_to(rooms, i, to.0, y));
    }
}

} // verus!
