use dungeon_level::mesh::{get_indices, CUBE_INDICES, CUBE_VERTEX_COUNT};

#[test]
fn first_cube_has_the_plain_table() {
    assert_eq!(CUBE_VERTEX_COUNT, 24);
    assert_eq!(get_indices(0), CUBE_INDICES);
    assert_eq!(
        get_indices(0),
        [
            0, 1, 2, 2, 3, 0, 4, 5, 6, 6, 7, 4, 8, 9, 10, 10, 11, 8, 12, 13, 14, 14, 15, 12, 16,
            17, 18, 18, 19, 16, 20, 21, 22, 22, 23, 20
        ]
    );
}

#[test]
fn later_cubes_are_shifted_by_their_vertices() {
    let third = get_indices(2);
    assert_eq!(third[0], 48);
    assert_eq!(third[5], 48);
    assert_eq!(third[4], 51);
    assert_eq!(third[35], 68);
    assert_eq!(third[34], 71);
    for i in 0..36 {
        assert_eq!(third[i], CUBE_INDICES[i] + 48);
    }
}

#[test]
fn every_face_is_two_triangles_over_four_vertices() {
    let idx = get_indices(5);
    for face in 0..6usize {
        let first = 5 * 24 + 4 * face as i32;
        let tri = &idx[face * 6..face * 6 + 6];
        assert_eq!(tri, [first, first + 1, first + 2, first + 2, first + 3, first]);
    }
}

#[test]
fn last_cube_that_fits() {
    let last = (i32::MAX - 23) / 24;
    let idx = get_indices(last);
    assert_eq!(idx[0], last * 24);
    assert_eq!(idx[34], last * 24 + 23);
}
