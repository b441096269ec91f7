use dungeon_level::decor::{ceiling_tile, floor_tile, get_rand_ceiling_tile, get_rand_floor_tile};

#[test]
fn ceiling_tile_for_every_draw() {
    let want = [0, 0, 0, 0, 0, 0, 0, 0, 12, 24];
    for n in 0..10 {
        assert_eq!(ceiling_tile(n), want[n as usize], "draw {}", n);
    }
}

#[test]
fn floor_tile_for_every_draw() {
    let want = [48, 48, 48, 48, 48, 49, 49, 49, 48, 42];
    for n in 0..10 {
        assert_eq!(floor_tile(n), want[n as usize], "draw {}", n);
    }
}

#[test]
fn tiles_for_draws_out_of_range() {
    assert_eq!(ceiling_tile(-1), 0);
    assert_eq!(ceiling_tile(i32::MIN), 0);
    assert_eq!(ceiling_tile(10), 24);
    assert_eq!(ceiling_tile(i32::MAX), 24);
    assert_eq!(floor_tile(-1), 48);
    assert_eq!(floor_tile(10), 42);
}

#[test]
fn random_ceiling_tiles_are_ceiling_tiles() {
    let mut rng = rand::thread_rng();
    let mut seen = [0u32; 3];
    for _ in 0..2000 {
        match get_rand_ceiling_tile(&mut rng) {
            0 => seen[0] += 1,
            12 => seen[1] += 1,
            24 => seen[2] += 1,
            other => panic!("{} is no ceiling tile", other),
        }
    }
    // eight draws in ten give the plain tile, one each the other two
    assert!(seen[0] > 1000);
    assert!(seen[1] > 0 && seen[2] > 0);
}

#[test]
fn random_floor_tiles_are_floor_tiles() {
    let mut rng = rand::thread_rng();
    let mut seen = [0u32; 3];
    for _ in 0..2000 {
        match get_rand_floor_tile(&mut rng) {
            48 => seen[0] += 1,
            49 => seen[1] += 1,
            42 => seen[2] += 1,
            other => panic!("{} is no floor tile", other),
        }
    }
    assert!(seen[0] > 600);
    assert!(seen[1] > 200 && seen[2] > 0);
}
