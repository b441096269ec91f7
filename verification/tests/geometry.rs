use dungeon_level::geometry::Rect;

#[test]
fn new_sets_both_corners() {
    let r = Rect::new(10, 10, 6, 6);
    assert_eq!((r.x1, r.y1, r.x2, r.y2), (10, 10, 15, 15));
    let one = Rect::new(3, 4, 1, 1);
    assert_eq!((one.x1, one.y1, one.x2, one.y2), (3, 4, 3, 4));
    let wide = Rect::new(-2, 7, 5, 2);
    assert_eq!((wide.x1, wide.y1, wide.x2, wide.y2), (-2, 7, 2, 8));
}

#[test]
fn center_is_truncated_midpoint() {
    assert_eq!(Rect::new(10, 10, 6, 6).center(), (12, 12));
    assert_eq!(Rect::new(1, 1, 5, 5).center(), (3, 3));
    assert_eq!(Rect::new(0, 0, 2, 4).center(), (0, 1));
    assert_eq!(Rect::new(7, 9, 1, 1).center(), (7, 9));
}

#[test]
fn center_rounds_toward_zero_below_zero() {
    // corners -5 and -2: the sum is -7, and half of it toward zero is -3
    assert_eq!(Rect::new(-5, -5, 4, 4).center(), (-3, -3));
    assert_eq!(Rect::new(-1, -1, 2, 2).center(), (0, 0));
}

#[test]
fn center_of_far_rectangle_does_not_overflow() {
    let r = Rect::new(i32::MAX - 3, i32::MAX - 1, 4, 2);
    assert_eq!(r.center(), (i32::MAX - 2, i32::MAX - 1));
}

#[test]
fn overlapping_rectangles_intersect() {
    let a = Rect::new(10, 10, 6, 6);
    assert!(a.intersects(&Rect::new(12, 12, 2, 2)));
    assert!(a.intersects(&Rect::new(8, 8, 20, 20)));
    assert!(a.intersects(&Rect::new(14, 3, 5, 9)));
    assert!(a.intersects(&a));
}

#[test]
fn sharing_one_cell_is_intersecting() {
    let a = Rect::new(10, 10, 6, 6);
    // the corner cell (15, 15) belongs to both
    assert!(a.intersects(&Rect::new(15, 15, 3, 3)));
    // the column 15 belongs to both
    assert!(a.intersects(&Rect::new(15, 10, 4, 6)));
}

#[test]
fn side_by_side_is_not_intersecting() {
    let a = Rect::new(10, 10, 6, 6);
    assert!(!a.intersects(&Rect::new(16, 10, 6, 6)));
    assert!(!a.intersects(&Rect::new(10, 16, 6, 6)));
    assert!(!a.intersects(&Rect::new(4, 10, 6, 6)));
    assert!(!a.intersects(&Rect::new(10, 4, 6, 6)));
    assert!(!a.intersects(&Rect::new(16, 16, 2, 2)));
}

#[test]
fn intersects_is_symmetric() {
    let rects = [
        Rect::new(1, 1, 5, 5),
        Rect::new(5, 5, 5, 5),
        Rect::new(6, 1, 3, 3),
        Rect::new(20, 20, 12, 7),
        Rect::new(0, 0, 40, 40),
    ];
    for a in rects.iter() {
        for b in rects.iter() {
            assert_eq!(a.intersects(b), b.intersects(a));
        }
    }
}
