//! The tile grid of a level: a fixed-size, row-major array of tiles.

use vstd::prelude::*;
use crate::error::{ConfigError, OutOfBounds};
use crate::tile::TileClassification;

verus! {

/// A rectangular grid of tiles, stored row by row.
///
/// The model of a grid is its width, its height and the sequence of its
/// tiles. The cell in column `x` of row `y` is element `y * width + x` of
/// that sequence.
#[derive(Debug, PartialEq, Eq)]
pub struct TileGrid {
    width: usize,
    height: usize,
    tiles: Vec<TileClassification>,
}

impl View for TileGrid {
    type V = Seq<TileClassification>;

    closed spec fn view(&self) -> Seq<TileClassification> {
        self.tiles@
    }
}

impl Clone for TileGrid {
    /// Copies the grid, tile by tile.
    fn clone(&self) -> (copy: TileGrid)
        ensures
            copy.wf(),
            copy.same_shape(self),
            copy@ == self@,
    {
        proof {
            use_type_invariant(self);
        }
        let tiles = self.tiles.clone();
        assert(tiles@ =~= self.tiles@);
        TileGrid { width: self.width, height: self.height, tiles }
    }
}

/// Why a grid of the given dimensions cannot be built, if it cannot: a
/// dimension is zero, or the cells are more than one allocation can hold.
pub open spec fn size_error(width: int, height: int) -> Option<ConfigError> {
    if width <= 0 || height <= 0 {
        Some(ConfigError::EmptyGrid)
    } else if width * height > isize::MAX {
        Some(ConfigError::GridTooLarge)
    } else {
        None
    }
}

/// Counts the cells of a grid of the given dimensions without building it,
/// or says why such a grid cannot be built.
pub fn cell_count(width: usize, height: usize) -> (r: Result<usize, ConfigError>)
    ensures
        r == (match size_error(width as int, height as int) {
            Some(e) => Err::<usize, ConfigError>(e),
            None => Ok::<usize, ConfigError>((width * height) as usize),
        }),
{
    if width == 0 || height == 0 {
        return Err(ConfigError::EmptyGrid);
    }
    match width.checked_mul(height) {
        Some(cells) => {
            if cells > isize::MAX as usize {
                Err(ConfigError::GridTooLarge)
            } else {
                Ok(cells)
            }
        },
        None => Err(ConfigError::GridTooLarge),
    }
}

impl TileGrid {
    /// The number of columns.
    pub closed spec fn spec_width(&self) -> int {
        self.width as int
    }

    /// The number of rows.
    pub closed spec fn spec_height(&self) -> int {
        self.height as int
    }

    /// The invariant of every grid: both dimensions are positive and no cell
    /// is missing.
    #[verifier::type_invariant]
    pub open spec fn wf(&self) -> bool {
        &&& 0 < self.spec_width()
        &&& 0 < self.spec_height()
        &&& self@.len() == self.spec_width() * self.spec_height()
    }

    /// Whether `(x, y)` names a cell of the grid.
    pub open spec fn in_bounds(&self, x: int, y: int) -> bool {
        0 <= x < self.spec_width() && 0 <= y < self.spec_height()
    }

    /// The place of cell `(x, y)` in the row-major sequence of tiles.
    pub open spec fn spec_index(&self, x: int, y: int) -> int {
        y * self.spec_width() + x
    }

    /// The tile in column `x` of row `y`.
    pub open spec fn tile_at(&self, x: int, y: int) -> TileClassification {
        self@[self.spec_index(x, y)]
    }

    /// Whether `(x, y)` lies on the outermost ring of cells.
    pub open spec fn on_perimeter(&self, x: int, y: int) -> bool {
        self.in_bounds(x, y) && (x == 0 || y == 0 || x == self.spec_width() - 1 || y
            == self.spec_height() - 1)
    }

    /// Whether every cell of the outermost ring is a wall.
    pub open spec fn perimeter_is_wall(&self) -> bool {
        forall|x: int, y: int|
            self.on_perimeter(x, y) ==> #[trigger] self.tile_at(x, y) == TileClassification::Wall
    }

    /// Whether the two grids have the same dimensions.
    pub open spec fn same_shape(&self, other: &TileGrid) -> bool {
        self.spec_width() == other.spec_width() && self.spec_height() == other.spec_height()
    }

    /// Builds a grid of `width` columns and `height` rows in which every tile
    /// is `fill`. A dimension of zero, and dimensions whose product no
    /// allocation can hold, are rejected.
    pub fn new(width: usize, height: usize, fill: TileClassification) -> (r: Result<
        TileGrid,
        ConfigError,
    >)
        ensures
            match r {
                Ok(grid) => {
                    &&& size_error(width as int, height as int) is None
                    &&& grid.wf()
                    &&& grid.spec_width() == width
                    &&& grid.spec_height() == height
                    &&& forall|i: int| 0 <= i < grid@.len() ==> grid@[i] == fill
                },
                Err(e) => size_error(width as int, height as int) == Some(e),
            },
    {
        match cell_count(width, height) {
            Ok(cells) => {
                let tiles = vec![fill; cells];
                Ok(TileGrid { width, height, tiles })
            },
            Err(e) => Err(e),
        }
    }

    /// The number of columns.
    pub fn width(&self) -> (w: usize)
        ensures
            w == self.spec_width(),
            w > 0,
    {
        proof {
            use_type_invariant(self);
        }
        self.width
    }

    /// The number of rows.
    pub fn height(&self) -> (h: usize)
        ensures
            h == self.spec_height(),
            h > 0,
    {
        proof {
            use_type_invariant(self);
        }
        self.height
    }

    /// The tiles of the grid, row by row.
    pub fn tiles(&self) -> (t: &Vec<TileClassification>)
        ensures
            t@ == self@,
            t@.len() == self.spec_width() * self.spec_height(),
    {
        proof {
            use_type_invariant(self);
        }
        &self.tiles
    }

    /// Tells whether `(x, y)` names a cell of the grid.
    pub fn contains(&self, x: usize, y: usize) -> (b: bool)
        ensures
            b == self.in_bounds(x as int, y as int),
    {
        x < self.width && y < self.height
    }

    /// Maps the coordinates of a cell to its place in the row-major sequence
    /// of tiles. Splitting the result by the width gives the coordinates back.
    pub fn index(&self, x: usize, y: usize) -> (i: usize)
        requires
            self.in_bounds(x as int, y as int),
        ensures
            i == self.spec_index(x as int, y as int),
            i < self@.len(),
            (i as int) % self.spec_width() == x,
            (i as int) / self.spec_width() == y,
    {
        proof {
            use_type_invariant(self);
            lemma_index_in_range(self.spec_width(), self.spec_height(), x as int, y as int);
            assert(0 <= y * self.spec_width() <= self.spec_width() * self.spec_height())
                by (nonlinear_arith)
                requires
                    0 <= y < self.spec_height(),
                    0 < self.spec_width(),
            ;
            assert(self.tiles.len() == self@.len());
        }
        y * self.width + x
    }

    /// The bounds-checked form of [`TileGrid::index`].
    pub fn checked_index(&self, x: usize, y: usize) -> (r: Result<usize, OutOfBounds>)
        ensures
            r == (if self.in_bounds(x as int, y as int) {
                Ok::<usize, OutOfBounds>(self.spec_index(x as int, y as int) as usize)
            } else {
                Err::<usize, OutOfBounds>(OutOfBounds { x, y })
            }),
    {
        if self.contains(x, y) {
            Ok(self.index(x, y))
        } else {
            Err(OutOfBounds { x, y })
        }
    }

    /// Splits a place in the row-major sequence of tiles into the coordinates
    /// of its cell, the inverse of [`TileGrid::index`].
    pub fn position(&self, index: usize) -> (r: Option<(usize, usize)>)
        ensures
            r == (if index < self@.len() {
                Some(
                    (
                        (index as int % self.spec_width()) as usize,
                        (index as int / self.spec_width()) as usize,
                    ),
                )
            } else {
                None
            }),
            r matches Some(p) ==> self.in_bounds(p.0 as int, p.1 as int) && self.spec_index(
                p.0 as int,
                p.1 as int,
            ) == index,
    {
        proof {
            use_type_invariant(self);
        }
        if index < self.tiles.len() {
            proof {
                lemma_position_in_range(self.spec_width(), self.spec_height(), index as int);
            }
            Some((index % self.width, index / self.width))
        } else {
            None
        }
    }

    /// Reads the tile at `(x, y)`.
    pub fn get(&self, x: usize, y: usize) -> (r: Result<TileClassification, OutOfBounds>)
        ensures
            r == (if self.in_bounds(x as int, y as int) {
                Ok::<TileClassification, OutOfBounds>(self.tile_at(x as int, y as int))
            } else {
                Err::<TileClassification, OutOfBounds>(OutOfBounds { x, y })
            }),
    {
        if self.contains(x, y) {
            let i: usize = self.index(x, y);
            Ok(self.tiles[i])
        } else {
            Err(OutOfBounds { x, y })
        }
    }

    /// Tells whether an entity may stand on `(x, y)`: the cell exists and is floor.
    pub fn can_occupy(&self, x: usize, y: usize) -> (b: bool)
        ensures
            b == (self.in_bounds(x as int, y as int) && self.tile_at(x as int, y as int)
                == TileClassification::Floor),
    {
        match self.get(x, y) {
            Ok(tile) => tile.is_walkable(),
            Err(_) => false,
        }
    }

    /// Writes `tile` to the cell at `(x, y)` and leaves every other cell as it was.
    /// Outside the grid nothing is written.
    pub fn set(&mut self, x: usize, y: usize, tile: TileClassification) -> (r: Result<
        (),
        OutOfBounds,
    >)
        ensures
            final(self).same_shape(old(self)),
            final(self).wf(),
            r == (if old(self).in_bounds(x as int, y as int) {
                Ok::<(), OutOfBounds>(())
            } else {
                Err::<(), OutOfBounds>(OutOfBounds { x, y })
            }),
            final(self)@ == (if old(self).in_bounds(x as int, y as int) {
                old(self)@.update(old(self).spec_index(x as int, y as int), tile)
            } else {
                old(self)@
            }),
            forall|cx: int, cy: int|
                old(self).in_bounds(cx, cy) ==> #[trigger] final(self).tile_at(cx, cy) == (if cx
                    == x && cy == y {
                    tile
                } else {
                    old(self).tile_at(cx, cy)
                }),
    {
        proof {
            use_type_invariant(&*self);
        }
        if self.contains(x, y) {
            let i: usize = self.index(x, y);
            self.tiles[i] = tile;
            proof {
                assert forall|cx: int, cy: int|
                    old(self).in_bounds(cx, cy) implies #[trigger] self.tile_at(cx, cy) == (if cx
                    == x && cy == y {
                    tile
                } else {
                    old(self).tile_at(cx, cy)
                }) by {
                    lemma_index_in_range(self.spec_width(), self.spec_height(), cx, cy);
                    if self.spec_index(cx, cy) == self.spec_index(x as int, y as int) {
                        lemma_index_injective(self.spec_width(), cx, cy, x as int, y as int);
                    }
                }
            }
            Ok(())
        } else {
            Err(OutOfBounds { x, y })
        }
    }

    /// Turns every cell on the outermost ring into a wall and leaves the rest
    /// as it was. On a grid whose ring is all wall already, nothing changes.
    pub fn border_walls(&mut self)
        ensures
            final(self).wf(),
            final(self).same_shape(old(self)),
            forall|x: int, y: int|
                old(self).in_bounds(x, y) ==> #[trigger] final(self).tile_at(x, y) == (if old(
                    self,
                ).on_perimeter(x, y) {
                    TileClassification::Wall
                } else {
                    old(self).tile_at(x, y)
                }),
            final(self).perimeter_is_wall(),
            old(self).perimeter_is_wall() ==> final(self)@ == old(self)@,
    {
        proof {
            use_type_invariant(&*self);
        }
        let ghost start = *self;
        let width: usize = self.width;
        let height: usize = self.height;
        let mut x: usize = 0;
        while x < width
            invariant
                self.wf(),
                self.same_shape(&start),
                width == self.spec_width(),
                height == self.spec_height(),
                0 <= x <= width,
                forall|cx: int, cy: int|
                    start.in_bounds(cx, cy) ==> #[trigger] self.tile_at(cx, cy) == (if cx < x && (cy
                        == 0 || cy == height - 1) {
                        TileClassification::Wall
                    } else {
                        start.tile_at(cx, cy)
                    }),
            decreases width - x,
        {
            let _ = self.set(x, 0, TileClassification::Wall);
            let _ = self.set(x, height - 1, TileClassification::Wall);
            x = x + 1;
        }
        let mut y: usize = 0;
        while y < height
            invariant
                self.wf(),
                self.same_shape(&start),
                width == self.spec_width(),
                height == self.spec_height(),
                0 <= y <= height,
                forall|cx: int, cy: int|
                    start.in_bounds(cx, cy) ==> #[trigger] self.tile_at(cx, cy) == (if (cy == 0
                        || cy == height - 1) || (cy < y && (cx == 0 || cx == width - 1)) {
                        TileClassification::Wall
                    } else {
                        start.tile_at(cx, cy)
                    }),
            decreases height - y,
        {
            let _ = self.set(0, y, TileClassification::Wall);
            let _ = self.set(width - 1, y, TileClassification::Wall);
            y = y + 1;
        }
        proof {
            if start.perimeter_is_wall() {
                lemma_same_tiles(self, &start);
            }
        }
    }
}

/// Two grids of the same shape that agree on every cell hold the same
/// sequence of tiles.
pub proof fn lemma_same_tiles(a: &TileGrid, b: &TileGrid)
    requires
        a.wf(),
        b.wf(),
        a.same_shape(b),
        forall|x: int, y: int| a.in_bounds(x, y) ==> #[trigger] a.tile_at(x, y) == b.tile_at(x, y),
    ensures
        a@ == b@,
{
    assert forall|i: int| 0 <= i < a@.len() implies a@[i] == b@[i] by {
        lemma_position_in_range(a.spec_width(), a.spec_height(), i);
        let x = i % a.spec_width();
        let y = i / a.spec_width();
        assert(a.tile_at(x, y) == b.tile_at(x, y));
    }
    assert(a@ =~= b@);
}

/// Within a grid of the given dimensions the row-major place of a cell is a
/// valid index, and splitting it by the width gives the coordinates back.
pub proof fn lemma_index_in_range(width: int, height: int, x: int, y: int)
    requires
        0 <= x < width,
        0 <= y < height,
    ensures
        0 <= y * width + x < width * height,
        (y * width + x) % width == x,
        (y * width + x) / width == y,
{
    assert(y * width + x < width * height) by (nonlinear_arith)
        requires
            0 <= x < width,
            0 <= y < height,
    ;
    assert(0 <= y * width) by (nonlinear_arith)
        requires
            0 <= y,
            0 < width,
    ;
    vstd::arithmetic::div_mod::lemma_fundamental_div_mod_converse(y * width + x, width, y, x);
}

/// Two cells with the same row-major place are the same cell.
pub proof fn lemma_index_injective(width: int, xa: int, ya: int, xb: int, yb: int)
    requires
        0 <= xa < width,
        0 <= xb < width,
        0 <= ya,
        0 <= yb,
        ya * width + xa == yb * width + xb,
    ensures
        xa == xb,
        ya == yb,
{
    vstd::arithmetic::div_mod::lemma_fundamental_div_mod_converse(ya * width + xa, width, ya, xa);
    vstd::arithmetic::div_mod::lemma_fundamental_div_mod_converse(yb * width + xb, width, yb, xb);
}

/// Every valid index splits into the coordinates of a cell of the grid, and
/// that cell's row-major place is the index.
pub proof fn lemma_position_in_range(width: int, height: int, index: int)
    requires
        0 < width,
        0 < height,
        0 <= index < width * height,
    ensures
        0 <= index % width < width,
        0 <= index / width < height,
        (index / width) * width + index % width == index,
{
    vstd::arithmetic::div_mod::lemma_fundamental_div_mod(index, width);
    vstd::arithmetic::div_mod::lemma_mod_bound(index, width);
    let q = index / width;
    let r = index % width;
    assert(width * q == q * width) by (nonlinear_arith);
    assert(0 <= q < height) by (nonlinear_arith)
        requires
            0 < width,
            0 < height,
            0 <= r < width,
            q * width + r == index,
            0 <= index < width * height,
    ;
}

} // verus!
