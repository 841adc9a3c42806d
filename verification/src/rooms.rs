//! The rooms-and-corridors strategy on a given sequence of candidates.

use vstd::prelude::*;
use crate::carve::{carve_corridor, carve_room};
use crate::error::ConfigError;
use crate::grid::{lemma_index_in_range, size_error, TileGrid};
use crate::layout::{
    accepted_rooms, accepts, all_inside_border, carved, clear_of, inside_border, is_rooms_layout,
    lemma_accepted_rooms, lemma_carved_empty, lemma_carved_push, lemma_rooms_keep_border,
    on_corridor, pairwise_disjoint, shows_rooms,
};
use crate::rect::Rect;
use crate::tile::TileClassification;

verus! {

/// Tells whether the rectangle is well formed and touches no cell of the
/// outer ring of a grid of the given dimensions.
pub fn lies_inside_border(room: &Rect, width: usize, height: usize) -> (b: bool)
    ensures
        b == inside_border(*room, width as int, height as int),
{
    1 <= room.x1 && room.x1 < room.x2 && room.x2 as usize + 2 <= width && 1 <= room.y1 && room.y1
        < room.y2 && room.y2 as usize + 2 <= height
}

/// Tells whether the candidate intersects none of the rooms. The rooms are
/// tested in the order of the list.
pub fn is_clear_of(rooms: &Vec<Rect>, candidate: &Rect) -> (b: bool)
    ensures
        b == clear_of(rooms@, *candidate),
{
    let mut i: usize = 0;
    while i < rooms.len()
        invariant
            0 <= i <= rooms.len(),
            forall|k: int| 0 <= k < i ==> !candidate.spec_intersects(#[trigger] rooms@[k]),
        decreases rooms.len() - i,
    {
        if candidate.intersects(&rooms[i]) {
            return false;
        }
        i = i + 1;
    }
    true
}

/// Tries to add the candidate to the level. A candidate that lies inside the
/// border and intersects no room is accepted: its interior is carved, then
/// the corridor from the last room's centre to its own, and it joins the room
/// list. Any other candidate is dropped and nothing changes.
pub fn place_room(grid: &mut TileGrid, rooms: &mut Vec<Rect>, candidate: Rect) -> (placed: bool)
    ensures
        placed == accepts(
            old(grid).spec_width(),
            old(grid).spec_height(),
            old(rooms)@,
            candidate,
        ),
        final(rooms)@ == (if placed {
            old(rooms)@.push(candidate)
        } else {
            old(rooms)@
        }),
        final(grid).wf(),
        final(grid).same_shape(old(grid)),
        forall|x: int, y: int|
            old(grid).in_bounds(x, y) ==> #[trigger] final(grid).tile_at(x, y) == (if placed && (
            candidate.interior_contains(x, y) || (old(rooms)@.len() > 0 && on_corridor(
                old(rooms)@.last().spec_center(),
                candidate.spec_center(),
                x,
                y,
            ))) {
                TileClassification::Floor
            } else {
                old(grid).tile_at(x, y)
            }),
        shows_rooms(old(grid), old(rooms)@) ==> shows_rooms(final(grid), final(rooms)@),
{
    proof {
        use_type_invariant(&*grid);
    }
    let width: usize = grid.width();
    let height: usize = grid.height();
    if !lies_inside_border(&candidate, width, height) || !is_clear_of(rooms, &candidate) {
        return false;
    }
    carve_room(grid, &candidate);
    if rooms.len() > 0 {
        let last: (i32, i32) = rooms[rooms.len() - 1].center();
        carve_corridor(grid, last, candidate.center());
    }
    rooms.push(candidate);
    proof {
        if shows_rooms(old(grid), old(rooms)@) {
            assert forall|x: int, y: int| grid.in_bounds(x, y) implies #[trigger] grid.tile_at(
                x,
                y,
            ) == (if carved(rooms@, x, y) {
                TileClassification::Floor
            } else {
                TileClassification::Wall
            }) by {
                lemma_carved_push(old(rooms)@, candidate, x, y);
                assert(old(grid).in_bounds(x, y));
            }
        }
    }
    true
}

/// Builds the level that a given sequence of candidates leads to: a grid of
/// walls into which each accepted candidate is carved in turn, with the outer
/// ring walled at the end. The room list holds the accepted candidates in the
/// order in which they came.
pub fn layout_from_candidates(width: usize, height: usize, candidates: &Vec<Rect>) -> (r: Result<
    (TileGrid, Vec<Rect>),
    ConfigError,
>)
    ensures
        match r {
            Ok((grid, rooms)) => {
                &&& size_error(width as int, height as int) is None
                &&& is_rooms_layout(width as int, height as int, candidates@, &grid, rooms@)
                &&& grid.perimeter_is_wall()
                &&& all_inside_border(rooms@, width as int, height as int)
                &&& pairwise_disjoint(rooms@)
            },
            Err(e) => size_error(width as int, height as int) == Some(e),
        },
{
    let mut grid = match TileGrid::new(width, height, TileClassification::Wall) {
        Ok(grid) => grid,
        Err(e) => {
            return Err(e);
        },
    };
    let mut rooms: Vec<Rect> = Vec::new();
    proof {
        assert forall|x: int, y: int| grid.in_bounds(x, y) implies #[trigger] grid.tile_at(x, y)
            == TileClassification::Wall by {
            lemma_index_in_range(grid.spec_width(), grid.spec_height(), x, y);
        }
        assert forall|x: int, y: int| !carved(rooms@, x, y) by {
            lemma_carved_empty(x, y);
        }
    }
    let mut i: usize = 0;
    while i < candidates.len()
        invariant
            0 <= i <= candidates.len(),
            grid.wf(),
            grid.spec_width() == width,
            grid.spec_height() == height,
            rooms@ == accepted_rooms(width as int, height as int, candidates@.take(i as int)),
            shows_rooms(&grid, rooms@),
        decreases candidates.len() - i,
    {
        proof {
            assert(candidates@.take(i + 1).drop_last() =~= candidates@.take(i as int));
        }
        let _ = place_room(&mut grid, &mut rooms, candidates[i]);
        i = i + 1;
    }
    proof {
        assert(candidates@.take(i as int) =~= candidates@);
        lemma_accepted_rooms(width as int, height as int, candidates@);
    }
    seal_border(&mut grid, &rooms);
    Ok((grid, rooms))
}

/// Walls the outer ring of the grid and leaves every other cell as it was. A
/// grid that shows rooms inside the border is unchanged and still shows them.
pub(crate) fn seal_border(grid: &mut TileGrid, rooms: &Vec<Rect>)
    ensures
        final(grid).wf(),
        final(grid).same_shape(old(grid)),
        forall|x: int, y: int|
            old(grid).in_bounds(x, y) ==> #[trigger] final(grid).tile_at(x, y) == (if old(
                grid,
            ).on_perimeter(x, y) {
                TileClassification::Wall
            } else {
                old(grid).tile_at(x, y)
            }),
        final(grid).perimeter_is_wall(),
        shows_rooms(old(grid), rooms@) && all_inside_border(
            rooms@,
            old(grid).spec_width(),
            old(grid).spec_height(),
        ) ==> final(grid)@ == old(grid)@ && shows_rooms(final(grid), rooms@),
{
    proof {
        use_type_invariant(&*grid);
        if shows_rooms(old(grid), rooms@) && all_inside_border(
            rooms@,
            old(grid).spec_width(),
            old(grid).spec_height(),
        ) {
            lemma_rooms_keep_border(old(grid), rooms@);
        }
    }
    grid.border_walls();
    proof {
        if old(grid).perimeter_is_wall() && shows_rooms(old(grid), rooms@) {
            assert forall|x: int, y: int| grid.in_bounds(x, y) implies #[trigger] grid.tile_at(
                x,
                y,
            ) == (if carved(rooms@, x, y) {
                TileClassification::Floor
            } else {
                TileClassification::Wall
            }) by {
                assert(old(grid).in_bounds(x, y));
            }
        }
    }
}

} // verus!
