use dungeon_map::config::{GeneratorConfig, Strategy};
use dungeon_map::error::ConfigError;
use dungeon_map::generator::{generate, generate_with, spawn_point};
use dungeon_map::grid::TileGrid;
use dungeon_map::rect::Rect;
use dungeon_map::rooms::layout_from_candidates;
use dungeon_map::splatter::splatter_from_positions;
use dungeon_map::tile::TileClassification;
use rltk::RandomNumberGenerator;

const FLOOR: TileClassification = TileClassification::Floor;
const WALL: TileClassification = TileClassification::Wall;

fn seeded(seed: u64) -> GeneratorConfig {
    GeneratorConfig { rng_seed: seed, ..GeneratorConfig::default() }
}

fn scattered(seed: u64, walls: usize) -> GeneratorConfig {
    GeneratorConfig {
        rng_seed: seed,
        strategy: Strategy::Splatter { walls },
        ..GeneratorConfig::default()
    }
}

fn on_corridor(from: (i32, i32), to: (i32, i32), x: i32, y: i32) -> bool {
    let between = |a: i32, b: i32, v: i32| (a <= v && v <= b) || (b <= v && v <= a);
    (y == from.1 && between(from.0, to.0, x)) || (x == to.0 && between(from.1, to.1, y))
}

fn carved(rooms: &Vec<Rect>, x: i32, y: i32) -> bool {
    let in_room = rooms.iter().any(|r| r.x1 < x && x < r.x2 && r.y1 < y && y < r.y2);
    let in_corridor = (1..rooms.len())
        .any(|i| on_corridor(rooms[i - 1].center(), rooms[i].center(), x, y));
    in_room || in_corridor
}

fn assert_ring_is_wall(grid: &TileGrid) {
    let (w, h) = (grid.width(), grid.height());
    for x in 0..w {
        assert_eq!(grid.get(x, 0), Ok(WALL));
        assert_eq!(grid.get(x, h - 1), Ok(WALL));
    }
    for y in 0..h {
        assert_eq!(grid.get(0, y), Ok(WALL));
        assert_eq!(grid.get(w - 1, y), Ok(WALL));
    }
}

fn assert_rooms_level(config: &GeneratorConfig, grid: &TileGrid, rooms: &Vec<Rect>) {
    assert_eq!(grid.width(), config.grid_width as usize);
    assert_eq!(grid.height(), config.grid_height as usize);
    assert_ring_is_wall(grid);
    assert!(rooms.len() <= config.max_rooms);
    assert!(config.max_rooms == 0 || !rooms.is_empty());
    for r in rooms {
        let (w, h) = (r.x2 - r.x1, r.y2 - r.y1);
        assert!(config.room_min_size <= w && w <= config.room_max_size);
        assert!(config.room_min_size <= h && h <= config.room_max_size);
        assert!(1 <= r.x1 && r.x2 <= config.grid_width - 2);
        assert!(1 <= r.y1 && r.y2 <= config.grid_height - 2);
    }
    for i in 0..rooms.len() {
        for j in 0..rooms.len() {
            if i != j {
                assert!(!rooms[i].intersects(&rooms[j]));
            }
        }
    }
    for y in 0..config.grid_height {
        for x in 0..config.grid_width {
            let expected = if carved(rooms, x, y) { FLOOR } else { WALL };
            assert_eq!(grid.get(x as usize, y as usize), Ok(expected));
        }
    }
}

#[test]
fn generated_rooms_level_keeps_every_promise() {
    for seed in 0..40 {
        let config = seeded(seed);
        let (grid, rooms) = generate(&config).unwrap();
        assert_rooms_level(&config, &grid, &rooms);
    }
}

#[test]
fn generated_level_has_a_walled_outer_ring() {
    for seed in 0..20 {
        let (grid, _) = generate(&seeded(seed)).unwrap();
        assert_ring_is_wall(&grid);
        let (grid, _) = generate(&scattered(seed, 400)).unwrap();
        assert_ring_is_wall(&grid);
    }
}

#[test]
fn generated_spawn_is_floor() {
    for seed in 0..40 {
        let config = seeded(seed);
        let (grid, rooms) = generate(&config).unwrap();
        let (x, y) = spawn_point(&config, &rooms).unwrap();
        assert_eq!((x, y), rooms[0].center());
        assert_eq!(grid.get(x as usize, y as usize), Ok(FLOOR));
        let config = scattered(seed, 4000);
        let (grid, rooms) = generate(&config).unwrap();
        assert_eq!(spawn_point(&config, &rooms), Some((40, 25)));
        assert_eq!(grid.get(40, 25), Ok(FLOOR));
    }
}

#[test]
fn generated_rooms_do_not_intersect() {
    for seed in 100..140 {
        let (_, rooms) = generate(&seeded(seed)).unwrap();
        for (i, a) in rooms.iter().enumerate() {
            for b in rooms.iter().skip(i + 1) {
                assert!(!a.intersects(b));
                assert!(!b.intersects(a));
            }
        }
    }
}

#[test]
fn same_seed_gives_the_same_level() {
    for seed in [0, 1, 42, u64::MAX] {
        assert_eq!(generate(&seeded(seed)), generate(&seeded(seed)));
        assert_eq!(generate(&scattered(seed, 400)), generate(&scattered(seed, 400)));
    }
}

#[test]
fn seeds_give_different_levels() {
    let first = generate(&seeded(0)).unwrap();
    assert!((1..20).any(|seed| generate(&seeded(seed)).unwrap() != first));
    let first = generate(&scattered(0, 400)).unwrap();
    assert!((1..20).any(|seed| generate(&scattered(seed, 400)).unwrap() != first));
}

#[test]
fn generate_draws_from_the_seeded_source() {
    for seed in [0, 7, 42] {
        let config = seeded(seed);
        let mut rng = RandomNumberGenerator::seeded(seed);
        assert_eq!(generate_with(&config, &mut rng), generate(&config));
    }
}

#[test]
fn generate_draws_sizes_before_places() {
    for seed in [3, 42, 2024] {
        let config = seeded(seed);
        let mut rng = RandomNumberGenerator::seeded(seed);
        let mut candidates = Vec::new();
        for _ in 0..config.max_rooms {
            let w = rng.range(config.room_min_size, config.room_max_size + 1);
            let h = rng.range(config.room_min_size, config.room_max_size + 1);
            let x = rng.range(1, config.grid_width - 1 - w);
            let y = rng.range(1, config.grid_height - 1 - h);
            candidates.push(Rect { x1: x, y1: y, x2: x + w, y2: y + h });
        }
        assert_eq!(generate(&config), layout_from_candidates(80, 50, &candidates));
    }
}

#[test]
fn generate_draws_the_column_before_the_row() {
    for seed in [3, 42, 2024] {
        let config = scattered(seed, 400);
        let mut rng = RandomNumberGenerator::seeded(seed);
        let mut positions = Vec::new();
        for _ in 0..400 {
            let x = rng.range(0, 80) as usize;
            let y = rng.range(0, 50) as usize;
            positions.push((x, y));
        }
        let expected = splatter_from_positions(80, 50, &positions).unwrap();
        assert_eq!(generate(&config), Ok((expected, Vec::new())));
    }
}

#[test]
fn generate_places_several_rooms() {
    for seed in 0..10 {
        let (_, rooms) = generate(&seeded(seed)).unwrap();
        assert!(rooms.len() > 1);
        assert!(rooms.iter().any(|r| r.x1 != rooms[0].x1 || r.y1 != rooms[0].y1));
    }
}

#[test]
fn equal_size_bounds_give_square_rooms_of_that_size() {
    for seed in 0..20 {
        let config = GeneratorConfig { room_min_size: 6, room_max_size: 6, ..seeded(seed) };
        let (grid, rooms) = generate(&config).unwrap();
        assert_rooms_level(&config, &grid, &rooms);
        for r in &rooms {
            assert_eq!((r.x2 - r.x1, r.y2 - r.y1), (6, 6));
        }
    }
}

#[test]
fn one_attempt_gives_one_room_and_no_corridor() {
    for seed in 0..20 {
        let config = GeneratorConfig { max_rooms: 1, ..seeded(seed) };
        let (grid, rooms) = generate(&config).unwrap();
        assert_eq!(rooms.len(), 1);
        let r = rooms[0];
        for y in 0..50 {
            for x in 0..80 {
                let inside = r.x1 < x && x < r.x2 && r.y1 < y && y < r.y2;
                assert_eq!(grid.get(x as usize, y as usize), Ok(if inside { FLOOR } else { WALL }));
            }
        }
    }
}

#[test]
fn single_room_of_size_six_with_seed_forty_two() {
    let config = GeneratorConfig {
        grid_width: 80,
        grid_height: 50,
        max_rooms: 1,
        room_min_size: 6,
        room_max_size: 6,
        rng_seed: 42,
        strategy: Strategy::RoomsAndCorridors,
    };
    let (grid, rooms) = generate(&config).unwrap();
    assert_eq!(rooms.len(), 1);
    let r = rooms[0];
    assert_eq!(r.x2 - r.x1, 6);
    assert_eq!(r.y2 - r.y1, 6);
    assert_ring_is_wall(&grid);
    let mut floor = 0;
    for y in 0..50 {
        for x in 0..80 {
            let outside = x < r.x1 || x > r.x2 || y < r.y1 || y > r.y2;
            if outside {
                assert_eq!(grid.get(x as usize, y as usize), Ok(WALL));
            }
            if grid.get(x as usize, y as usize) == Ok(FLOOR) {
                floor += 1;
            }
        }
    }
    assert_eq!(floor, 25);
    let (cx, cy) = spawn_point(&config, &rooms).unwrap();
    assert_eq!((cx, cy), (r.x1 + 3, r.y1 + 3));
    assert_eq!(grid.get(cx as usize, cy as usize), Ok(FLOOR));
}

#[test]
fn consecutive_rooms_are_joined_by_floor() {
    for seed in 0..20 {
        let (grid, rooms) = generate(&seeded(seed)).unwrap();
        for i in 1..rooms.len() {
            let (from_x, from_y) = rooms[i - 1].center();
            let (to_x, to_y) = rooms[i].center();
            for x in from_x.min(to_x)..=from_x.max(to_x) {
                assert_eq!(grid.get(x as usize, from_y as usize), Ok(FLOOR));
            }
            for y in from_y.min(to_y)..=from_y.max(to_y) {
                assert_eq!(grid.get(to_x as usize, y as usize), Ok(FLOOR));
            }
        }
    }
}

#[test]
fn no_attempt_gives_solid_rock_and_no_spawn() {
    let config = GeneratorConfig { max_rooms: 0, ..seeded(5) };
    let (grid, rooms) = generate(&config).unwrap();
    assert_eq!(rooms, vec![]);
    assert_eq!(grid, TileGrid::new(80, 50, WALL).unwrap());
    assert_eq!(spawn_point(&config, &rooms), None);
}

#[test]
fn rooms_of_size_one_carve_only_corridors() {
    let config = GeneratorConfig {
        grid_width: 12,
        grid_height: 9,
        max_rooms: 6,
        room_min_size: 1,
        room_max_size: 1,
        ..seeded(11)
    };
    let (grid, rooms) = generate(&config).unwrap();
    assert_rooms_level(&config, &grid, &rooms);
    for r in &rooms {
        assert_eq!(r.center(), (r.x1, r.y1));
    }
    if rooms.len() == 1 {
        assert_eq!(grid, TileGrid::new(12, 9, WALL).unwrap());
    }
}

#[test]
fn smallest_grid_for_a_room_holds_exactly_that_room() {
    let config = GeneratorConfig {
        grid_width: 5,
        grid_height: 5,
        max_rooms: 3,
        room_min_size: 2,
        room_max_size: 2,
        ..seeded(9)
    };
    let (grid, rooms) = generate(&config).unwrap();
    assert_eq!(rooms, vec![Rect { x1: 1, y1: 1, x2: 3, y2: 3 }]);
    for y in 0..5 {
        for x in 0..5 {
            assert_eq!(grid.get(x, y), Ok(if (x, y) == (2, 2) { FLOOR } else { WALL }));
        }
    }
    assert_eq!(spawn_point(&config, &rooms), Some((2, 2)));
}

#[test]
fn scattered_level_has_no_rooms_and_an_open_centre() {
    for seed in 0..20 {
        let config = scattered(seed, 400);
        let (grid, rooms) = generate(&config).unwrap();
        assert_eq!(rooms, vec![]);
        assert_eq!(grid.width(), 80);
        assert_eq!(grid.height(), 50);
        assert_eq!(grid.get(40, 25), Ok(FLOOR));
        let inner_walls = (1..49)
            .map(|y| (1..79).filter(|x| grid.get(*x, y) == Ok(WALL)).count())
            .sum::<usize>();
        assert!(inner_walls <= 400);
        assert!(inner_walls > 0);
    }
}

#[test]
fn scattered_level_without_walls_is_open_inside_the_ring() {
    let (grid, _) = generate(&scattered(1, 0)).unwrap();
    for y in 0..50 {
        for x in 0..80 {
            let ring = x == 0 || y == 0 || x == 79 || y == 49;
            assert_eq!(grid.get(x, y), Ok(if ring { WALL } else { FLOOR }));
        }
    }
}

#[test]
fn scattered_level_on_the_smallest_grid() {
    let config = GeneratorConfig { grid_width: 3, grid_height: 3, ..scattered(8, 50) };
    let (grid, _) = generate(&config).unwrap();
    for y in 0..3 {
        for x in 0..3 {
            assert_eq!(grid.get(x, y), Ok(if (x, y) == (1, 1) { FLOOR } else { WALL }));
        }
    }
    assert_eq!(spawn_point(&config, &Vec::new()), Some((1, 1)));
}

#[test]
fn generate_rejects_an_invalid_configuration() {
    let base = seeded(1);
    let cases = [
        (GeneratorConfig { grid_width: 0, ..base }, ConfigError::EmptyGrid),
        (GeneratorConfig { grid_height: -5, ..base }, ConfigError::EmptyGrid),
        (GeneratorConfig { room_min_size: 0, ..base }, ConfigError::EmptyRoom),
        (GeneratorConfig { room_min_size: 11, ..base }, ConfigError::RoomSizeOrder),
        (GeneratorConfig { room_max_size: 48, ..base }, ConfigError::GridTooSmall),
        (GeneratorConfig { grid_width: 2, ..scattered(1, 5) }, ConfigError::GridTooSmall),
    ];
    for (config, error) in cases {
        assert_eq!(generate(&config), Err(error));
        let mut rng = RandomNumberGenerator::seeded(1);
        assert_eq!(generate_with(&config, &mut rng), Err(error));
    }
}

#[test]
fn generate_with_leaves_the_source_untouched_on_an_invalid_configuration() {
    let config = GeneratorConfig { room_min_size: 0, ..seeded(1) };
    let mut used = RandomNumberGenerator::seeded(77);
    let mut fresh = RandomNumberGenerator::seeded(77);
    assert_eq!(generate_with(&config, &mut used), Err(ConfigError::EmptyRoom));
    assert_eq!(used.next_u64(), fresh.next_u64());
}

#[test]
fn generate_with_goes_on_with_the_stream() {
    let config = seeded(0);
    let mut rng = RandomNumberGenerator::seeded(5);
    let first = generate_with(&config, &mut rng).unwrap();
    let second = generate_with(&config, &mut rng).unwrap();
    assert_rooms_level(&config, &first.0, &first.1);
    assert_rooms_level(&config, &second.0, &second.1);
    assert_ne!(first, second);
}
