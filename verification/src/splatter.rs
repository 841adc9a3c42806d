//! The scatter strategy on a given sequence of positions.

use vstd::prelude::*;
use crate::error::ConfigError;
use crate::grid::{lemma_index_in_range, size_error, TileGrid};
use crate::layout::{center_cell, is_splatter_layout, splattered};
use crate::tile::TileClassification;

verus! {

/// Why no scattered level of the given dimensions can be built, if none can.
pub open spec fn splatter_error(width: int, height: int) -> Option<ConfigError> {
    if size_error(width, height) is Some {
        size_error(width, height)
    } else if width < 3 || height < 3 {
        Some(ConfigError::GridTooSmall)
    } else {
        None
    }
}

/// Whether the grid is floor everywhere but on the positions, the centre
/// cell excepted, where it is wall.
pub open spec fn shows_splatter(grid: &TileGrid, positions: Seq<(usize, usize)>) -> bool {
    forall|x: int, y: int|
        grid.in_bounds(x, y) ==> #[trigger] grid.tile_at(x, y) == (if (x, y) != center_cell(
            grid.spec_width(),
            grid.spec_height(),
        ) && splattered(positions, x, y) {
            TileClassification::Wall
        } else {
            TileClassification::Floor
        })
}

/// Turns the cell at `(x, y)` into a wall, unless it is the centre cell of
/// the grid or lies outside it. Every other cell stays as it was.
pub fn splatter_wall(grid: &mut TileGrid, x: usize, y: usize)
    ensures
        final(grid).wf(),
        final(grid).same_shape(old(grid)),
        forall|cx: int, cy: int|
            old(grid).in_bounds(cx, cy) ==> #[trigger] final(grid).tile_at(cx, cy) == (if cx == x
                && cy == y && (cx, cy) != center_cell(
                old(grid).spec_width(),
                old(grid).spec_height(),
            ) {
                TileClassification::Wall
            } else {
                old(grid).tile_at(cx, cy)
            }),
{
    proof {
        use_type_invariant(&*grid);
    }
    let center_x: usize = grid.width() / 2;
    let center_y: usize = grid.height() / 2;
    if x != center_x || y != center_y {
        let _ = grid.set(x, y, TileClassification::Wall);
    }
}

/// Builds the scattered level that a given sequence of positions leads to: an
/// open floor on which each position but the centre cell becomes a wall, with
/// the outer ring walled at the end. Positions outside the grid are skipped.
pub fn splatter_from_positions(
    width: usize,
    height: usize,
    positions: &Vec<(usize, usize)>,
) -> (r: Result<TileGrid, ConfigError>)
    ensures
        match r {
            Ok(grid) => {
                &&& splatter_error(width as int, height as int) is None
                &&& is_splatter_layout(width as int, height as int, positions@, &grid)
                &&& grid.perimeter_is_wall()
                &&& grid.tile_at(width as int / 2, height as int / 2) == TileClassification::Floor
            },
            Err(e) => splatter_error(width as int, height as int) == Some(e),
        },
{
    let mut grid = match open_floor(width, height) {
        Ok(grid) => grid,
        Err(e) => {
            return Err(e);
        },
    };
    let mut i: usize = 0;
    while i < positions.len()
        invariant
            0 <= i <= positions.len(),
            grid.wf(),
            grid.spec_width() == width,
            grid.spec_height() == height,
            shows_splatter(&grid, positions@.take(i as int)),
        decreases positions.len() - i,
    {
        let ghost before = grid;
        let position: (usize, usize) = positions[i];
        splatter_wall(&mut grid, position.0, position.1);
        proof {
            lemma_splatter_step(&before, &grid, positions@.take(i as int), position);
            assert(positions@.take(i as int).push(position) =~= positions@.take(i + 1));
        }
        i = i + 1;
    }
    proof {
        assert(positions@.take(i as int) =~= positions@);
    }
    grid.border_walls();
    Ok(grid)
}

/// One more scattered wall keeps the grid in step with the list of positions.
pub proof fn lemma_splatter_step(
    before: &TileGrid,
    after: &TileGrid,
    positions: Seq<(usize, usize)>,
    position: (usize, usize),
)
    requires
        shows_splatter(before, positions),
        after.same_shape(before),
        forall|cx: int, cy: int|
            before.in_bounds(cx, cy) ==> #[trigger] after.tile_at(cx, cy) == (if cx == position.0
                && cy == position.1 && (cx, cy) != center_cell(
                before.spec_width(),
                before.spec_height(),
            ) {
                TileClassification::Wall
            } else {
                before.tile_at(cx, cy)
            }),
    ensures
        shows_splatter(after, positions.push(position)),
{
    let longer = positions.push(position);
    assert forall|x: int, y: int| after.in_bounds(x, y) implies #[trigger] after.tile_at(x, y) == (
    if (x, y) != center_cell(after.spec_width(), after.spec_height()) && splattered(longer, x, y) {
        TileClassification::Wall
    } else {
        TileClassification::Floor
    }) by {
        assert(before.in_bounds(x, y));
        if splattered(positions, x, y) {
            let i = choose|i: int|
                0 <= i < positions.len() && (#[trigger] positions[i]).0 == x && positions[i].1 == y;
            assert(longer[i] == positions[i]);
        }
        if splattered(longer, x, y) {
            let i = choose|i: int|
                0 <= i < longer.len() && (#[trigger] longer[i]).0 == x && longer[i].1 == y;
            if i < positions.len() {
                assert(positions[i] == longer[i]);
            }
        }
        if x == position.0 && y == position.1 {
            assert(longer[positions.len() as int] == position);
        }
    }
}

/// Builds a grid of the given dimensions that is floor everywhere, provided
/// its centre cell is off the outer ring.
pub(crate) fn open_floor(width: usize, height: usize) -> (r: Result<TileGrid, ConfigError>)
    ensures
        match r {
            Ok(grid) => {
                &&& splatter_error(width as int, height as int) is None
                &&& grid.wf()
                &&& grid.spec_width() == width
                &&& grid.spec_height() == height
                &&& shows_splatter(&grid, Seq::empty())
            },
            Err(e) => splatter_error(width as int, height as int) == Some(e),
        },
{
    let grid = match TileGrid::new(width, height, TileClassification::Floor) {
        Ok(grid) => grid,
        Err(e) => {
            return Err(e);
        },
    };
    if width < 3 || height < 3 {
        return Err(ConfigError::GridTooSmall);
    }
    proof {
        assert forall|x: int, y: int| grid.in_bounds(x, y) implies #[trigger] grid.tile_at(x, y)
            == TileClassification::Floor by {
            lemma_index_in_range(grid.spec_width(), grid.spec_height(), x, y);
        }
        assert forall|x: int, y: int| !splattered(Seq::<(usize, usize)>::empty(), x, y) by {}
    }
    Ok(grid)
}

} // verus!
