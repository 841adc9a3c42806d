//! Turning cells of a grid into floor: blocks, rooms and corridors.
//!
//! Every function here is total. Cells that a shape would cover outside the
//! grid are skipped, and the rest of the grid is left as it was.

use vstd::prelude::*;
use crate::grid::TileGrid;
use crate::layout::{between, on_corridor};
use crate::rect::Rect;
use crate::tile::TileClassification;

verus! {

/// Whether `(x, y)` lies in the block of cells from column `left` to column
/// `right` and from row `top` to row `bottom`, ends included.
pub open spec fn in_block(left: int, top: int, right: int, bottom: int, x: int, y: int) -> bool {
    left <= x <= right && top <= y <= bottom
}

/// Turns every cell of the block into floor.
pub fn carve_block(grid: &mut TileGrid, left: i32, top: i32, right: i32, bottom: i32)
    ensures
        final(grid).wf(),
        final(grid).same_shape(old(grid)),
        forall|x: int, y: int|
            old(grid).in_bounds(x, y) ==> #[trigger] final(grid).tile_at(x, y) == (if in_block(
                left as int,
                top as int,
                right as int,
                bottom as int,
                x,
                y,
            ) {
                TileClassification::Floor
            } else {
                old(grid).tile_at(x, y)
            }),
{
    proof {
        use_type_invariant(&*grid);
    }
    if right < 0 || bottom < 0 {
        return ;
    }
    let ghost start = *grid;
    let width: usize = grid.width();
    let height: usize = grid.height();
    let first_column: usize = if left < 0 {
        0
    } else {
        left as usize
    };
    let last_column: usize = if right as usize >= width {
        width - 1
    } else {
        right as usize
    };
    let first_row: usize = if top < 0 {
        0
    } else {
        top as usize
    };
    let last_row: usize = if bottom as usize >= height {
        height - 1
    } else {
        bottom as usize
    };
    let mut y: usize = first_row;
    while y <= last_row
        invariant
            grid.wf(),
            grid.same_shape(&start),
            width == grid.spec_width(),
            height == grid.spec_height(),
            right >= 0,
            bottom >= 0,
            first_column == (if left < 0 { 0 } else { left as int }),
            last_column == (if right >= width { width - 1 } else { right as int }),
            first_row == (if top < 0 { 0 } else { top as int }),
            last_row == (if bottom >= height { height - 1 } else { bottom as int }),
            first_row <= y,
            y <= last_row + 1 || y == first_row,
            forall|cx: int, cy: int|
                start.in_bounds(cx, cy) ==> #[trigger] grid.tile_at(cx, cy) == (if first_column
                    <= cx <= last_column && first_row <= cy < y {
                    TileClassification::Floor
                } else {
                    start.tile_at(cx, cy)
                }),
        decreases last_row + 1 - y,
    {
        let mut x: usize = first_column;
        while x <= last_column
            invariant
                grid.wf(),
                grid.same_shape(&start),
                width == grid.spec_width(),
                height == grid.spec_height(),
                0 <= first_column <= x,
                x <= last_column + 1 || x == first_column,
                last_column < width,
                0 <= first_row <= y <= last_row < height,
                forall|cx: int, cy: int|
                    start.in_bounds(cx, cy) ==> #[trigger] grid.tile_at(cx, cy) == (if (
                    first_column <= cx <= last_column && first_row <= cy < y) || (first_column
                        <= cx < x && cy == y) {
                        TileClassification::Floor
                    } else {
                        start.tile_at(cx, cy)
                    }),
            decreases last_column + 1 - x,
        {
            let _ = grid.set(x, y, TileClassification::Floor);
            x = x + 1;
        }
        y = y + 1;
    }
}

/// Turns the interior of the room into floor: the cells strictly between its
/// edges. The edges themselves stay as they were, so that two rooms whose
/// rectangles do not intersect are always parted by a wall.
pub fn carve_room(grid: &mut TileGrid, room: &Rect)
    ensures
        final(grid).wf(),
        final(grid).same_shape(old(grid)),
        forall|x: int, y: int|
            old(grid).in_bounds(x, y) ==> #[trigger] final(grid).tile_at(x, y) == (
            if room.interior_contains(x, y) {
                TileClassification::Floor
            } else {
                old(grid).tile_at(x, y)
            }),
{
    proof {
        use_type_invariant(&*grid);
    }
    if room.x1 < i32::MAX && room.y1 < i32::MAX && room.x2 > i32::MIN && room.y2 > i32::MIN {
        carve_block(grid, room.x1 + 1, room.y1 + 1, room.x2 - 1, room.y2 - 1);
    }
}

/// Turns into floor the cells of row `y` from column `x_from` to column
/// `x_to`, ends included, in whichever order the two are given.
pub fn carve_horizontal(grid: &mut TileGrid, x_from: i32, x_to: i32, y: i32)
    ensures
        final(grid).wf(),
        final(grid).same_shape(old(grid)),
        forall|cx: int, cy: int|
            old(grid).in_bounds(cx, cy) ==> #[trigger] final(grid).tile_at(cx, cy) == (if cy == y
                && between(x_from as int, x_to as int, cx) {
                TileClassification::Floor
            } else {
                old(grid).tile_at(cx, cy)
            }),
{
    if x_from <= x_to {
        carve_block(grid, x_from, y, x_to, y);
    } else {
        carve_block(grid, x_to, y, x_from, y);
    }
}

/// Turns into floor the cells of column `x` from row `y_from` to row `y_to`,
/// ends included, in whichever order the two are given.
pub fn carve_vertical(grid: &mut TileGrid, y_from: i32, y_to: i32, x: i32)
    ensures
        final(grid).wf(),
        final(grid).same_shape(old(grid)),
        forall|cx: int, cy: int|
            old(grid).in_bounds(cx, cy) ==> #[trigger] final(grid).tile_at(cx, cy) == (if cx == x
                && between(y_from as int, y_to as int, cy) {
                TileClassification::Floor
            } else {
                old(grid).tile_at(cx, cy)
            }),
{
    if y_from <= y_to {
        carve_block(grid, x, y_from, x, y_to);
    } else {
        carve_block(grid, x, y_to, x, y_from);
    }
}

/// Carves the L-shaped corridor from `from` to `to`: first along the row of
/// `from` to the column of `to`, then along that column to `to`. The order is
/// fixed, so the same two points always give the same corridor.
pub fn carve_corridor(grid: &mut TileGrid, from: (i32, i32), to: (i32, i32))
    ensures
        final(grid).wf(),
        final(grid).same_shape(old(grid)),
        forall|x: int, y: int|
            old(grid).in_bounds(x, y) ==> #[trigger] final(grid).tile_at(x, y) == (if on_corridor(
                (from.0 as int, from.1 as int),
                (to.0 as int, to.1 as int),
                x,
                y,
            ) {
                TileClassification::Floor
            } else {
                old(grid).tile_at(x, y)
            }),
{
    carve_horizontal(grid, from.0, to.0, from.1);
    carve_vertical(grid, from.1, to.1, to.0);
}

} // verus!
