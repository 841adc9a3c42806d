use dungeon_map::error::{ConfigError, OutOfBounds};
use dungeon_map::grid::{cell_count, TileGrid};
use dungeon_map::tile::TileClassification;

const FLOOR: TileClassification = TileClassification::Floor;
const WALL: TileClassification = TileClassification::Wall;

#[test]
fn tile_is_walkable_only_when_floor() {
    assert!(FLOOR.is_walkable());
    assert!(!WALL.is_walkable());
}

#[test]
fn new_fills_every_cell() {
    let grid = TileGrid::new(80, 50, WALL).unwrap();
    assert_eq!(grid.width(), 80);
    assert_eq!(grid.height(), 50);
    assert_eq!(grid.tiles().len(), 4000);
    assert!(grid.tiles().iter().all(|t| *t == WALL));
    let open = TileGrid::new(3, 2, FLOOR).unwrap();
    assert_eq!(open.tiles(), &vec![FLOOR; 6]);
}

#[test]
fn new_rejects_a_zero_dimension() {
    assert_eq!(TileGrid::new(0, 50, WALL), Err(ConfigError::EmptyGrid));
    assert_eq!(TileGrid::new(80, 0, WALL), Err(ConfigError::EmptyGrid));
    assert_eq!(TileGrid::new(0, 0, WALL), Err(ConfigError::EmptyGrid));
    assert_eq!(TileGrid::new(0, usize::MAX, WALL), Err(ConfigError::EmptyGrid));
}

#[test]
fn new_rejects_more_cells_than_can_be_addressed() {
    assert_eq!(TileGrid::new(usize::MAX, 2, WALL), Err(ConfigError::GridTooLarge));
    assert_eq!(TileGrid::new(usize::MAX, usize::MAX, WALL), Err(ConfigError::GridTooLarge));
    assert_eq!(TileGrid::new(usize::MAX, 1, WALL), Err(ConfigError::GridTooLarge));
    assert_eq!(
        TileGrid::new(1, isize::MAX as usize + 1, WALL),
        Err(ConfigError::GridTooLarge)
    );
}

#[test]
fn cell_count_is_the_product_of_the_dimensions() {
    assert_eq!(cell_count(80, 50), Ok(4000));
    assert_eq!(cell_count(1, 1), Ok(1));
    assert_eq!(cell_count(isize::MAX as usize, 1), Ok(isize::MAX as usize));
    assert_eq!(cell_count(0, 1), Err(ConfigError::EmptyGrid));
    assert_eq!(cell_count(2, isize::MAX as usize), Err(ConfigError::GridTooLarge));
}

#[test]
fn index_is_row_major() {
    let grid = TileGrid::new(80, 50, WALL).unwrap();
    assert_eq!(grid.index(0, 0), 0);
    assert_eq!(grid.index(3, 2), 163);
    assert_eq!(grid.index(79, 0), 79);
    assert_eq!(grid.index(0, 1), 80);
    assert_eq!(grid.index(79, 49), 3999);
}

#[test]
fn index_splits_back_into_its_coordinates() {
    let grid = TileGrid::new(7, 5, WALL).unwrap();
    for y in 0..5 {
        for x in 0..7 {
            let i = grid.index(x, y);
            assert_eq!((i % 7, i / 7), (x, y));
            assert_eq!(grid.position(i), Some((x, y)));
        }
    }
}

#[test]
fn position_is_the_inverse_of_index() {
    let grid = TileGrid::new(80, 50, WALL).unwrap();
    assert_eq!(grid.position(163), Some((3, 2)));
    assert_eq!(grid.position(3999), Some((79, 49)));
    assert_eq!(grid.position(4000), None);
    assert_eq!(grid.position(usize::MAX), None);
    for i in 0..4000 {
        let (x, y) = grid.position(i).unwrap();
        assert_eq!(grid.index(x, y), i);
    }
}

#[test]
fn checked_index_guards_the_bounds() {
    let grid = TileGrid::new(80, 50, WALL).unwrap();
    assert_eq!(grid.checked_index(3, 2), Ok(163));
    assert_eq!(grid.checked_index(80, 2), Err(OutOfBounds { x: 80, y: 2 }));
    assert_eq!(grid.checked_index(3, 50), Err(OutOfBounds { x: 3, y: 50 }));
    assert_eq!(
        grid.checked_index(usize::MAX, usize::MAX),
        Err(OutOfBounds { x: usize::MAX, y: usize::MAX })
    );
}

#[test]
fn contains_tells_cells_from_other_coordinates() {
    let grid = TileGrid::new(4, 3, WALL).unwrap();
    assert!(grid.contains(0, 0));
    assert!(grid.contains(3, 2));
    assert!(!grid.contains(4, 2));
    assert!(!grid.contains(3, 3));
}

#[test]
fn set_writes_one_cell() {
    let mut grid = TileGrid::new(4, 3, WALL).unwrap();
    assert_eq!(grid.set(2, 1, FLOOR), Ok(()));
    for y in 0..3 {
        for x in 0..4 {
            let expected = if (x, y) == (2, 1) { FLOOR } else { WALL };
            assert_eq!(grid.get(x, y), Ok(expected));
        }
    }
    assert_eq!(grid.tiles()[6], FLOOR);
}

#[test]
fn set_outside_the_grid_changes_nothing() {
    let mut grid = TileGrid::new(4, 3, WALL).unwrap();
    let before = grid.clone();
    assert_eq!(grid.set(4, 1, FLOOR), Err(OutOfBounds { x: 4, y: 1 }));
    assert_eq!(grid.set(1, 3, FLOOR), Err(OutOfBounds { x: 1, y: 3 }));
    assert_eq!(grid, before);
}

#[test]
fn get_outside_the_grid_is_an_error() {
    let grid = TileGrid::new(4, 3, FLOOR).unwrap();
    assert_eq!(grid.get(3, 2), Ok(FLOOR));
    assert_eq!(grid.get(4, 2), Err(OutOfBounds { x: 4, y: 2 }));
    assert_eq!(grid.get(0, 3), Err(OutOfBounds { x: 0, y: 3 }));
}

#[test]
fn can_occupy_needs_a_floor_cell_of_the_grid() {
    let mut grid = TileGrid::new(4, 3, WALL).unwrap();
    grid.set(1, 1, FLOOR).unwrap();
    assert!(grid.can_occupy(1, 1));
    assert!(!grid.can_occupy(2, 1));
    assert!(!grid.can_occupy(4, 1));
    assert!(!grid.can_occupy(1, 3));
}

#[test]
fn clone_copies_the_grid() {
    let mut grid = TileGrid::new(4, 3, WALL).unwrap();
    grid.set(1, 1, FLOOR).unwrap();
    let copy = grid.clone();
    assert_eq!(copy, grid);
    grid.set(2, 1, FLOOR).unwrap();
    assert_ne!(copy, grid);
    assert_eq!(copy.get(2, 1), Ok(WALL));
}

#[test]
fn border_walls_walls_the_outer_ring_only() {
    let mut grid = TileGrid::new(6, 4, FLOOR).unwrap();
    grid.border_walls();
    for y in 0..4 {
        for x in 0..6 {
            let ring = x == 0 || y == 0 || x == 5 || y == 3;
            assert_eq!(grid.get(x, y), Ok(if ring { WALL } else { FLOOR }));
        }
    }
}

#[test]
fn border_walls_is_idempotent() {
    let mut grid = TileGrid::new(9, 7, FLOOR).unwrap();
    grid.set(4, 3, WALL).unwrap();
    grid.border_walls();
    let once = grid.clone();
    grid.border_walls();
    assert_eq!(grid, once);
}

#[test]
fn border_walls_covers_a_grid_without_interior() {
    for (w, h) in [(1, 1), (2, 2), (1, 5), (5, 1), (2, 6)] {
        let mut grid = TileGrid::new(w, h, FLOOR).unwrap();
        grid.border_walls();
        assert!(grid.tiles().iter().all(|t| *t == WALL));
    }
}
