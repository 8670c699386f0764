use vstd::prelude::*;

verus! {

/// Columns of the sheet: the first lattice coordinate runs over them.
pub const NUM_X: usize = 30;

/// Rows of the sheet: the second lattice coordinate runs over them.
pub const NUM_Y: usize = 200;

/// Particles of the sheet.
pub const NUM_PARTICLES: usize = 6000;

/// Triangles of the sheet: two for each cell.
pub const NUM_TRIANGLES: usize = 11542;

/// Edges of one column that has a column after it: one across to the next
/// column from each particle, one up from each particle but the last.
pub const EDGES_PER_COLUMN: usize = 399;

/// Edges of the sheet.
pub const NUM_EDGES: usize = 11770;

/// The counts are those of a lattice of `NUM_X` by `NUM_Y` particles.
pub proof fn lemma_lattice_counts()
    ensures
        NUM_PARTICLES == NUM_X * NUM_Y,
        NUM_TRIANGLES == 2 * ((NUM_X - 1) * (NUM_Y - 1)),
        EDGES_PER_COLUMN == NUM_Y + (NUM_Y - 1),
        NUM_EDGES == (NUM_X - 1) * NUM_Y + NUM_X * (NUM_Y - 1),
{
    assert(30 * 200 == 6000 && 29 * 199 == 5771 && 29 * 200 == 5800 && 30 * 199 == 5970)
        by (nonlinear_arith);
}

/// The linear index of the particle at lattice coordinates `(i, j)`.
pub open spec fn particle_id(i: int, j: int) -> int {
    i * NUM_Y + j
}

/// The place of cell `(i, j)` among the cells, column after column.
pub open spec fn cell_index(i: int, j: int) -> int {
    i * (NUM_Y - 1) + j
}

/// `t` is the triangle table of the sheet: cell `(i, j)`, in the order of
/// `cell_index`, gives the triangle of its corner with the two particles
/// above and across from above, then the triangle that completes the cell.
pub open spec fn is_lattice_triangles(t: Seq<[usize; 3]>) -> bool {
    &&& t.len() == NUM_TRIANGLES
    &&& forall|i: int, j: int|
        0 <= i < NUM_X - 1 && 0 <= j < NUM_Y - 1 ==> {
            let c = #[trigger] cell_index(i, j);
            let id = particle_id(i, j);
            &&& t[2 * c][0] == id + 1
            &&& t[2 * c][1] == id
            &&& t[2 * c][2] == id + 1 + NUM_Y
            &&& t[2 * c + 1][0] == id + 1 + NUM_Y
            &&& t[2 * c + 1][1] == id
            &&& t[2 * c + 1][2] == id + NUM_Y
        }
}

/// The place in the edge table of the edge from `(i, j)` across to
/// `(i + 1, j)`.
pub open spec fn across_edge_index(i: int, j: int) -> int {
    i * EDGES_PER_COLUMN + 2 * j
}

/// The place in the edge table of the edge from `(i, j)` up to `(i, j + 1)`.
/// In the last column no edge goes across, so the edges up follow one
/// another.
pub open spec fn up_edge_index(i: int, j: int) -> int {
    if i < NUM_X - 1 {
        i * EDGES_PER_COLUMN + 2 * j + 1
    } else {
        i * EDGES_PER_COLUMN + j
    }
}

/// `e` is the edge table of the sheet: particle after particle, the edge
/// across (where there is a next column), then the edge up (where there is a
/// next row).
pub open spec fn is_lattice_edges(e: Seq<[usize; 2]>) -> bool {
    &&& e.len() == NUM_EDGES
    &&& forall|i: int, j: int|
        0 <= i < NUM_X - 1 && 0 <= j < NUM_Y ==> {
            let k = #[trigger] across_edge_index(i, j);
            &&& e[k][0] == particle_id(i, j)
            &&& e[k][1] == particle_id(i, j) + NUM_Y
        }
    &&& forall|i: int, j: int|
        0 <= i < NUM_X && 0 <= j < NUM_Y - 1 ==> {
            let k = #[trigger] up_edge_index(i, j);
            &&& e[k][0] == particle_id(i, j)
            &&& e[k][1] == particle_id(i, j) + 1
        }
}

/// The triangle table has no other entries: each of its places is that of
/// the first or of the second triangle of a cell.
pub proof fn lemma_triangles_cover(k: int)
    requires
        0 <= k < NUM_TRIANGLES,
    ensures
        exists|i: int, j: int|
            0 <= i < NUM_X - 1 && 0 <= j < NUM_Y - 1 && (k == 2 * #[trigger] cell_index(i, j) || k
                == 2 * cell_index(i, j) + 1),
{
    let c = k / 2;
    let i = c / 199;
    let j = c % 199;
    assert(cell_index(i, j) == c);
}

/// The edge table has no other entries: each of its places is that of an
/// edge across or of an edge up.
pub proof fn lemma_edges_cover(k: int)
    requires
        0 <= k < NUM_EDGES,
    ensures
        (exists|i: int, j: int|
            0 <= i < NUM_X - 1 && 0 <= j < NUM_Y && k == #[trigger] across_edge_index(i, j)) || (
        exists|i: int, j: int|
            0 <= i < NUM_X && 0 <= j < NUM_Y - 1 && k == #[trigger] up_edge_index(i, j)),
{
    if k < 29 * 399 {
        let i = k / 399;
        let r = k % 399;
        if r % 2 == 0 {
            assert(across_edge_index(i, r / 2) == k);
        } else {
            assert(up_edge_index(i, r / 2) == k);
        }
    } else {
        assert(up_edge_index(29, k - 29 * 399) == k);
    }
}

/// Builds the triangle table of the sheet.
pub fn lattice_triangles() -> (t: Vec<[usize; 3]>)
    ensures
        is_lattice_triangles(t@),
        forall|k: int, m: int| 0 <= k < t.len() && 0 <= m < 3 ==> #[trigger] t[k][m] < NUM_PARTICLES,
{
    let mut t: Vec<[usize; 3]> = Vec::new();
    let mut i: usize = 0;
    while i < NUM_X
        invariant
            i <= NUM_X,
            i < NUM_X ==> t.len() == 2 * (i * (NUM_Y - 1)),
            i == NUM_X ==> t.len() == NUM_TRIANGLES,
            forall|k: int, m: int| 0 <= k < t.len() && 0 <= m < 3 ==> #[trigger] t[k][m] < NUM_PARTICLES,
            forall|a: int, b: int|
                0 <= a < i && a < NUM_X - 1 && 0 <= b < NUM_Y - 1 ==> {
                    let c = #[trigger] cell_index(a, b);
                    let id = particle_id(a, b);
                    &&& t[2 * c][0] == id + 1
                    &&& t[2 * c][1] == id
                    &&& t[2 * c][2] == id + 1 + NUM_Y
                    &&& t[2 * c + 1][0] == id + 1 + NUM_Y
                    &&& t[2 * c + 1][1] == id
                    &&& t[2 * c + 1][2] == id + NUM_Y
                },
        decreases NUM_X - i,
    {
        let mut j: usize = 0;
        assert(t.len() == 2 * (i * 199));
        while j < NUM_Y
            invariant
                i < NUM_X,
                j <= NUM_Y,
                i < NUM_X - 1 && j < NUM_Y ==> t.len() == 2 * (i * (NUM_Y - 1) + j),
                i < NUM_X - 1 && j == NUM_Y ==> t.len() == 2 * ((i + 1) * (NUM_Y - 1)),
                i == NUM_X - 1 ==> t.len() == NUM_TRIANGLES,
                forall|k: int, m: int| 0 <= k < t.len() && 0 <= m < 3 ==> #[trigger] t[k][m] < NUM_PARTICLES,
                forall|a: int, b: int|
                    0 <= a < NUM_X - 1 && 0 <= b < NUM_Y - 1 && (a < i || (a == i && b < j)) ==> {
                        let c = #[trigger] cell_index(a, b);
                        let id = particle_id(a, b);
                        &&& t[2 * c][0] == id + 1
                        &&& t[2 * c][1] == id
                        &&& t[2 * c][2] == id + 1 + NUM_Y
                        &&& t[2 * c + 1][0] == id + 1 + NUM_Y
                        &&& t[2 * c + 1][1] == id
                        &&& t[2 * c + 1][2] == id + NUM_Y
                    },
            decreases NUM_Y - j,
        {
            let id: usize = i * NUM_Y + j;
            if i < NUM_X - 1 && j < NUM_Y - 1 {
                t.push([id + 1, id, id + 1 + NUM_Y]);
                t.push([id + 1 + NUM_Y, id, id + NUM_Y]);
            }
            j = j + 1;
        }
        i = i + 1;
    }
    t
}

/// Builds the edge table of the sheet.
pub fn lattice_edges() -> (e: Vec<[usize; 2]>)
    ensures
        is_lattice_edges(e@),
        forall|k: int, m: int| 0 <= k < e.len() && 0 <= m < 2 ==> #[trigger] e[k][m] < NUM_PARTICLES,
{
    let mut e: Vec<[usize; 2]> = Vec::new();
    let mut i: usize = 0;
    while i < NUM_X
        invariant
            i <= NUM_X,
            i < NUM_X ==> e.len() == i * EDGES_PER_COLUMN,
            i == NUM_X ==> e.len() == NUM_EDGES,
            forall|k: int, m: int| 0 <= k < e.len() && 0 <= m < 2 ==> #[trigger] e[k][m] < NUM_PARTICLES,
            forall|a: int, b: int|
                0 <= a < i && a < NUM_X - 1 && 0 <= b < NUM_Y ==> {
                    let k = #[trigger] across_edge_index(a, b);
                    &&& e[k][0] == particle_id(a, b)
                    &&& e[k][1] == particle_id(a, b) + NUM_Y
                },
            forall|a: int, b: int|
                0 <= a < i && 0 <= b < NUM_Y - 1 ==> {
                    let k = #[trigger] up_edge_index(a, b);
                    &&& e[k][0] == particle_id(a, b)
                    &&& e[k][1] == particle_id(a, b) + 1
                },
        decreases NUM_X - i,
    {
        let mut j: usize = 0;
        assert(e.len() == i * 399);
        while j < NUM_Y
            invariant
                i < NUM_X,
                j <= NUM_Y,
                i < NUM_X - 1 && j < NUM_Y ==> e.len() == i * EDGES_PER_COLUMN + 2 * j,
                i < NUM_X - 1 && j == NUM_Y ==> e.len() == (i + 1) * EDGES_PER_COLUMN,
                i == NUM_X - 1 && j < NUM_Y ==> e.len() == i * EDGES_PER_COLUMN + j,
                i == NUM_X - 1 && j == NUM_Y ==> e.len() == NUM_EDGES,
                forall|k: int, m: int| 0 <= k < e.len() && 0 <= m < 2 ==> #[trigger] e[k][m] < NUM_PARTICLES,
                forall|a: int, b: int|
                    0 <= a < NUM_X - 1 && 0 <= b < NUM_Y && (a < i || (a == i && b < j)) ==> {
                        let k = #[trigger] across_edge_index(a, b);
                        &&& e[k][0] == particle_id(a, b)
                        &&& e[k][1] == particle_id(a, b) + NUM_Y
                    },
                forall|a: int, b: int|
                    0 <= a < NUM_X && 0 <= b < NUM_Y - 1 && (a < i || (a == i && b < j)) ==> {
                        let k = #[trigger] up_edge_index(a, b);
                        &&& e[k][0] == particle_id(a, b)
                        &&& e[k][1] == particle_id(a, b) + 1
                    },
            decreases NUM_Y - j,
        {
            let id: usize = i * NUM_Y + j;
            if i < NUM_X - 1 {
                e.push([id, id + NUM_Y]);
            }
            if j < NUM_Y - 1 {
                e.push([id, id + 1]);
            }
            j = j + 1;
        }
        i = i + 1;
    }
    e
}

} // verus!
