use dungeon_level::screen::{get_center, WINDOW_HEIGHT, WINDOW_WIDTH};

#[test]
fn window_size() {
    assert_eq!((WINDOW_WIDTH, WINDOW_HEIGHT), (1024, 768));
}

#[test]
fn window_goes_a_third_across_and_a_quarter_down() {
    assert_eq!(get_center(1920, 1080), (298, 78));
    assert_eq!(get_center(2560, 1440), (512, 168));
    assert_eq!(get_center(1027, 772), (1, 1));
}

#[test]
fn window_that_fills_the_monitor_goes_to_its_corner() {
    assert_eq!(get_center(1024, 768), (0, 0));
    assert_eq!(get_center(1026, 771), (0, 0));
}

#[test]
fn largest_monitor() {
    assert_eq!(get_center(u32::MAX, u32::MAX), ((u32::MAX - 1024) / 3, (u32::MAX - 768) / 4));
}
