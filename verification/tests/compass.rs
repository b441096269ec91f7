use dungeon_level::compass::Heading;

fn facing(dir: i8) -> Heading {
    let mut h = Heading::new();
    h.turn(dir);
    h
}

#[test]
fn starts_at_direction_zero() {
    assert_eq!(Heading::new().dir(), 0);
}

#[test]
fn turns_by_eighths() {
    let mut h = Heading::new();
    h.turn(1);
    assert_eq!(h.dir(), 1);
    h.turn(3);
    assert_eq!(h.dir(), 4);
    h.turn(-2);
    assert_eq!(h.dir(), 2);
    h.turn(0);
    assert_eq!(h.dir(), 2);
}

#[test]
fn past_the_last_direction_comes_the_first() {
    let mut h = facing(7);
    h.turn(1);
    assert_eq!(h.dir(), 0);
    let mut far = facing(5);
    far.turn(45);
    assert_eq!(far.dir(), 0);
    let mut most = facing(7);
    most.turn(120);
    assert_eq!(most.dir(), 0);
}

#[test]
fn before_the_first_direction_comes_the_last() {
    let mut h = Heading::new();
    h.turn(-1);
    assert_eq!(h.dir(), 7);
    let mut far = facing(3);
    far.turn(-45);
    assert_eq!(far.dir(), 7);
    let mut most = Heading::new();
    most.turn(i8::MIN);
    assert_eq!(most.dir(), 7);
}

#[test]
fn a_step_in_each_direction() {
    let want = [(0, 1), (1, 1), (1, 0), (1, -1), (0, -1), (-1, -1), (-1, 0), (-1, 1)];
    for dir in 0..8i8 {
        assert_eq!(facing(dir).step(1), want[dir as usize], "facing {}", dir);
    }
}

#[test]
fn a_step_backward_is_the_opposite_step() {
    for dir in 0..8i8 {
        let (x, y) = facing(dir).step(1);
        assert_eq!(facing(dir).step(-1), (-x, -y));
    }
}

#[test]
fn longer_steps_scale() {
    assert_eq!(facing(3).step(5), (5, -5));
    assert_eq!(facing(6).step(-4), (4, 0));
    assert_eq!(facing(0).step(0), (0, 0));
    assert_eq!(facing(5).step(127), (-127, -127));
    assert_eq!(facing(7).step(-127), (127, -127));
}
