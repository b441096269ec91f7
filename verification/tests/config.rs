use dungeon_level::config::{ConfigError, LevelConfig};
use dungeon_level::geometry::Rect;

fn classic() -> LevelConfig {
    LevelConfig {
        grid_width: 64,
        grid_height: 64,
        min_room_size: 5,
        max_room_size: 12,
        max_rooms: 10,
        max_attempts: 50,
    }
}

#[test]
fn default_is_the_classic_level() {
    assert_eq!(LevelConfig::default(), classic());
    assert_eq!(LevelConfig::default().validate(), Ok(()));
}

#[test]
fn min_above_max_is_refused() {
    let c = LevelConfig { min_room_size: 13, ..classic() };
    assert_eq!(c.validate(), Err(ConfigError::MinAboveMax));
}

#[test]
fn sizes_below_one_are_refused() {
    let c = LevelConfig { min_room_size: 0, ..classic() };
    assert_eq!(c.validate(), Err(ConfigError::RoomSizeNotPositive));
    let d = LevelConfig { min_room_size: -4, max_room_size: -6, ..classic() };
    assert_eq!(d.validate(), Err(ConfigError::RoomSizeNotPositive));
}

#[test]
fn rooms_wider_than_the_grid_allows_are_refused() {
    // a room of 12 needs columns 1..=12 at least and a free column after it
    let c = LevelConfig { grid_width: 14, ..classic() };
    assert_eq!(c.validate(), Err(ConfigError::RoomTooWide));
    let d = LevelConfig { grid_width: 15, ..classic() };
    assert_eq!(d.validate(), Ok(()));
    let e = LevelConfig { grid_width: 0, ..classic() };
    assert_eq!(e.validate(), Err(ConfigError::RoomTooWide));
    let f = LevelConfig { grid_width: i32::MIN, ..classic() };
    assert_eq!(f.validate(), Err(ConfigError::RoomTooWide));
}

#[test]
fn rooms_higher_than_the_grid_allows_are_refused() {
    let c = LevelConfig { grid_height: 14, ..classic() };
    assert_eq!(c.validate(), Err(ConfigError::RoomTooHigh));
    let d = LevelConfig { grid_height: 15, ..classic() };
    assert_eq!(d.validate(), Ok(()));
}

#[test]
fn faults_are_reported_in_a_fixed_order() {
    let c = LevelConfig { min_room_size: 0, max_room_size: -1, grid_width: 2, grid_height: 2, ..classic() };
    assert_eq!(c.validate(), Err(ConfigError::RoomSizeNotPositive));
    let d = LevelConfig { min_room_size: 9, max_room_size: 8, grid_width: 2, grid_height: 2, ..classic() };
    assert_eq!(d.validate(), Err(ConfigError::MinAboveMax));
    let e = LevelConfig { grid_width: 2, grid_height: 2, ..classic() };
    assert_eq!(e.validate(), Err(ConfigError::RoomTooWide));
}

#[test]
fn no_rooms_and_no_attempts_are_usable() {
    let c = LevelConfig { max_rooms: 0, max_attempts: 0, ..classic() };
    assert_eq!(c.validate(), Ok(()));
}

#[test]
fn admitted_rooms_are_those_placement_can_draw() {
    let c = classic();
    assert!(c.admits_room(&Rect::new(10, 10, 6, 6)));
    assert!(c.admits_room(&Rect::new(1, 1, 5, 5)));
    // the last column a room of width 12 can start at is 64 - 12 - 2 = 50
    assert!(c.admits_room(&Rect::new(50, 50, 12, 12)));
    assert!(!c.admits_room(&Rect::new(51, 50, 12, 12)));
    assert!(!c.admits_room(&Rect::new(50, 51, 12, 12)));
    // the last column a room of width 5 can start at is 57
    assert!(c.admits_room(&Rect::new(57, 1, 5, 5)));
    assert!(!c.admits_room(&Rect::new(58, 1, 5, 5)));
    assert!(!c.admits_room(&Rect::new(0, 1, 5, 5)));
    assert!(!c.admits_room(&Rect::new(1, 0, 5, 5)));
    assert!(!c.admits_room(&Rect::new(1, 1, 4, 5)));
    assert!(!c.admits_room(&Rect::new(1, 1, 5, 13)));
    assert!(!c.admits_room(&Rect { x1: 9, y1: 9, x2: 3, y2: 3 }));
}
