use dungeon_map::config::{GeneratorConfig, Strategy};
use dungeon_map::error::ConfigError;

fn rooms_config() -> GeneratorConfig {
    GeneratorConfig::default()
}

fn splatter_config(width: i32, height: i32) -> GeneratorConfig {
    GeneratorConfig {
        grid_width: width,
        grid_height: height,
        strategy: Strategy::Splatter { walls: 10 },
        ..GeneratorConfig::default()
    }
}

#[test]
fn default_is_the_classic_level() {
    let config = GeneratorConfig::default();
    assert_eq!(config.grid_width, 80);
    assert_eq!(config.grid_height, 50);
    assert_eq!(config.max_rooms, 30);
    assert_eq!(config.room_min_size, 6);
    assert_eq!(config.room_max_size, 10);
    assert_eq!(config.rng_seed, 0);
    assert_eq!(config.strategy, Strategy::RoomsAndCorridors);
    assert_eq!(config.validate(), Ok(()));
}

#[test]
fn validate_rejects_a_grid_without_cells() {
    for (w, h) in [(0, 50), (80, 0), (-1, 50), (80, -1), (i32::MIN, i32::MIN), (0, 0)] {
        let config = GeneratorConfig { grid_width: w, grid_height: h, ..rooms_config() };
        assert_eq!(config.validate(), Err(ConfigError::EmptyGrid));
        assert_eq!(splatter_config(w, h).validate(), Err(ConfigError::EmptyGrid));
    }
}

#[test]
fn validate_rejects_an_empty_room() {
    for min in [0, -1, i32::MIN] {
        let config = GeneratorConfig { room_min_size: min, ..rooms_config() };
        assert_eq!(config.validate(), Err(ConfigError::EmptyRoom));
    }
}

#[test]
fn validate_rejects_room_sizes_out_of_order() {
    let config = GeneratorConfig { room_min_size: 11, room_max_size: 10, ..rooms_config() };
    assert_eq!(config.validate(), Err(ConfigError::RoomSizeOrder));
    let config = GeneratorConfig { room_min_size: 1, room_max_size: 0, ..rooms_config() };
    assert_eq!(config.validate(), Err(ConfigError::RoomSizeOrder));
}

#[test]
fn validate_rejects_a_room_that_cannot_lie_inside_the_border() {
    let config = GeneratorConfig { room_max_size: 48, ..rooms_config() };
    assert_eq!(config.validate(), Err(ConfigError::GridTooSmall));
    let config = GeneratorConfig { grid_width: 12, ..rooms_config() };
    assert_eq!(config.validate(), Err(ConfigError::GridTooSmall));
    let config = GeneratorConfig { room_max_size: i32::MAX, ..rooms_config() };
    assert_eq!(config.validate(), Err(ConfigError::GridTooSmall));
}

#[test]
fn validate_accepts_the_largest_room_that_fits() {
    let config = GeneratorConfig { room_max_size: 47, ..rooms_config() };
    assert_eq!(config.validate(), Ok(()));
    let config = GeneratorConfig { grid_width: 13, grid_height: 13, ..rooms_config() };
    assert_eq!(config.validate(), Ok(()));
    let config = GeneratorConfig {
        grid_width: 4,
        grid_height: 4,
        room_min_size: 1,
        room_max_size: 1,
        ..rooms_config()
    };
    assert_eq!(config.validate(), Ok(()));
}

#[test]
fn validate_accepts_equal_room_sizes_and_no_rooms() {
    let config = GeneratorConfig { room_min_size: 6, room_max_size: 6, ..rooms_config() };
    assert_eq!(config.validate(), Ok(()));
    let config = GeneratorConfig { max_rooms: 0, ..rooms_config() };
    assert_eq!(config.validate(), Ok(()));
}

#[test]
fn validate_checks_the_grid_before_the_rooms() {
    let config = GeneratorConfig {
        grid_width: 0,
        room_min_size: 0,
        room_max_size: -1,
        ..rooms_config()
    };
    assert_eq!(config.validate(), Err(ConfigError::EmptyGrid));
    let config = GeneratorConfig { room_min_size: 0, room_max_size: -1, ..rooms_config() };
    assert_eq!(config.validate(), Err(ConfigError::EmptyRoom));
    let config = GeneratorConfig { room_min_size: 60, room_max_size: 50, ..rooms_config() };
    assert_eq!(config.validate(), Err(ConfigError::RoomSizeOrder));
}

#[test]
fn validate_wants_a_centre_off_the_border_for_a_scattered_level() {
    assert_eq!(splatter_config(2, 50).validate(), Err(ConfigError::GridTooSmall));
    assert_eq!(splatter_config(80, 2).validate(), Err(ConfigError::GridTooSmall));
    assert_eq!(splatter_config(1, 1).validate(), Err(ConfigError::GridTooSmall));
    assert_eq!(splatter_config(3, 3).validate(), Ok(()));
    assert_eq!(splatter_config(80, 50).validate(), Ok(()));
}

#[test]
fn validate_ignores_the_room_sizes_of_a_scattered_level() {
    let config = GeneratorConfig { room_min_size: 0, room_max_size: -1, ..splatter_config(80, 50) };
    assert_eq!(config.validate(), Ok(()));
}
