use vstd::prelude::*;

verus! {

/// How many vertices a cube has: four to each of its six faces.
pub const CUBE_VERTEX_COUNT: i32 = 24;

/// The vertex indices of the twelve triangles of a cube, two to a face,
/// counted from the cube's first vertex.
pub const CUBE_INDICES: [i32; 36] = [
    0, 1, 2, 2, 3, 0,
    4, 5, 6, 6, 7, 4,
    8, 9, 10, 10, 11, 8,
    12, 13, 14, 14, 15, 12,
    16, 17, 18, 18, 19, 16,
    20, 21, 22, 22, 23, 20,
];

/// The `i`-th vertex index of a cube's triangles, counted from the cube's
/// first vertex: on face `i / 6`, whose vertices are `4 * (i / 6)` and the
/// three after it, the triangles take the corners 0, 1, 2 and 2, 3, 0.
pub open spec fn cube_index(i: int) -> int {
    let corner = i % 6;
    4 * (i / 6) + if corner == 3 {
        2
    } else if corner == 4 {
        3
    } else if corner == 5 {
        0
    } else {
        corner
    }
}

/// The table of indices holds what `cube_index` says.
pub proof fn lemma_cube_indices()
    ensures
        forall|i: int| 0 <= i < 36 ==> #[trigger] CUBE_INDICES@[i] == cube_index(i),
{
    let t = CUBE_INDICES@;
    assert(t[0] == 0 && t[1] == 1 && t[2] == 2 && t[3] == 2 && t[4] == 3 && t[5] == 0);
    assert(t[6] == 4 && t[7] == 5 && t[8] == 6 && t[9] == 6 && t[10] == 7 && t[11] == 4);
    assert(t[12] == 8 && t[13] == 9 && t[14] == 10 && t[15] == 10 && t[16] == 11 && t[17] == 8);
    assert(t[18] == 12 && t[19] == 13 && t[20] == 14 && t[21] == 14 && t[22] == 15 && t[23] == 12);
    assert(t[24] == 16 && t[25] == 17 && t[26] == 18 && t[27] == 18 && t[28] == 19 && t[29] == 16);
    assert(t[30] == 20 && t[31] == 21 && t[32] == 22 && t[33] == 22 && t[34] == 23 && t[35] == 20);
}

/// The vertex indices of the triangles of cube number `index` in a buffer
/// that holds the vertices of the cubes one after another.
pub fn get_indices(index: i32) -> (indices: [i32; 36])
    requires
        i32::MIN <= index * 24,
        index * 24 + 23 <= i32::MAX,
    ensures
        forall|i: int| 0 <= i < 36 ==> #[trigger] indices@[i] == cube_index(i) + index * 24,
{
    let mut new_indices: [i32; 36] = [0;36];
    let base: i32 = index * CUBE_VERTEX_COUNT;
    let mut i: usize = 0;
    proof {
        lemma_cube_indices();
    }
    while i < 36
        invariant
            i <= 36,
            base == index * 24,
            i32::MIN <= index * 24,
            index * 24 + 23 <= i32::MAX,
            forall|k: int| 0 <= k < 36 ==> #[trigger] CUBE_INDICES@[k] == cube_index(k),
            forall|k: int| 0 <= k < i ==> #[trigger] new_indices@[k] == cube_index(k) + index * 24,
        decreases 36 - i,
    {
        assert(CUBE_INDICES@[i as int] == cube_index(i as int));
        new_indices[i] = CUBE_INDICES[i] + base;
        i += 1;
    }
    new_indices
}

} // verus!
