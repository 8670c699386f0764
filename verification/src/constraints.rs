use vstd::prelude::*;
use crate::arith::{is_distance, Arithmetic};
use crate::lattice::{particle_id, NUM_PARTICLES, NUM_X, NUM_Y};
use crate::scalar::{Scalar, ZERO_BITS};
use crate::vec3::Vec3;

verus! {

/// Distance constraints generated for each particle, at most.
pub const NUM_CONSTRAINTS_PER_PARTICLE: usize = 6;

/// Slots of the constraint table: `NUM_PARTICLES * NUM_CONSTRAINTS_PER_PARTICLE`.
pub const CONSTRAINT_SLOTS: usize = 36000;

/// Constraints that the lattice gives rise to; the slots after them keep
/// the default constraint.
pub const NUM_CONSTRAINTS: usize = 34852;

/// What a distance constraint stands for, which selects its compliance.
#[derive(Clone, Copy, Debug, PartialEq, Eq, Structural)]
pub enum ConstraintKind {
    Stretch,
    Shear,
    Bending,
}

/// A distance constraint between two particles.
#[derive(Clone, Copy, Debug)]
pub struct Constraint {
    pub ids: (usize, usize),
    pub kind: ConstraintKind,
    pub rest_len: Scalar,
}

/// One row of the constraint catalog: a kind and the lattice offsets of the
/// two endpoints from the cell that generates the constraint.
pub struct Pattern {
    pub kind: ConstraintKind,
    pub di0: int,
    pub dj0: int,
    pub di1: int,
    pub dj1: int,
}

/// The catalog, in the order in which its constraints are projected.
pub open spec fn pattern(k: int) -> Pattern {
    if k == 0 {
        Pattern { kind: ConstraintKind::Stretch, di0: 0, dj0: 0, di1: 0, dj1: 1 }
    } else if k == 1 {
        Pattern { kind: ConstraintKind::Stretch, di0: 0, dj0: 0, di1: 1, dj1: 0 }
    } else if k == 2 {
        Pattern { kind: ConstraintKind::Shear, di0: 0, dj0: 0, di1: 1, dj1: 1 }
    } else if k == 3 {
        Pattern { kind: ConstraintKind::Shear, di0: 0, dj0: 1, di1: 1, dj1: 0 }
    } else if k == 4 {
        Pattern { kind: ConstraintKind::Bending, di0: 0, dj0: 0, di1: 0, dj1: 2 }
    } else {
        Pattern { kind: ConstraintKind::Bending, di0: 0, dj0: 0, di1: 2, dj1: 0 }
    }
}

/// The larger of two offsets.
pub open spec fn reach(a: int, b: int) -> int {
    if a >= b { a } else { b }
}

/// Columns whose cells have both endpoints of pattern `k` inside the lattice.
pub open spec fn pattern_columns(k: int) -> int {
    NUM_X - reach(pattern(k).di0, pattern(k).di1)
}

/// Rows whose cells have both endpoints of pattern `k` inside the lattice.
pub open spec fn pattern_rows(k: int) -> int {
    NUM_Y - reach(pattern(k).dj0, pattern(k).dj1)
}

/// The slot of the first constraint of pattern `k`: the number of
/// constraints of the patterns before it. `pattern_start(6)` is the number
/// of all constraints.
pub open spec fn pattern_start(k: int) -> int {
    if k <= 0 {
        0
    } else if k == 1 {
        5970
    } else if k == 2 {
        11770
    } else if k == 3 {
        17541
    } else if k == 4 {
        23312
    } else if k == 5 {
        29252
    } else {
        34852
    }
}

/// The slot of the constraint that cell `(i, j)` generates for a pattern
/// that starts at `start` and fits `rows` cells of each column.
pub open spec fn slot(start: int, rows: int, i: int, j: int) -> int {
    start + i * rows + j
}

/// The slot of the constraint that cell `(i, j)` generates for pattern `k`.
pub open spec fn catalog_slot(k: int, i: int, j: int) -> int {
    slot(pattern_start(k), pattern_rows(k), i, j)
}

/// The constraint that fills the slots which the lattice leaves over.
pub open spec fn is_default(c: Constraint) -> bool {
    &&& c.ids == (0usize, 0usize)
    &&& c.kind == ConstraintKind::Bending
    &&& c.rest_len == Scalar::zero()
}

/// `c` holds the constraints of the lattice, rest lengths aside: pattern
/// after pattern and, within a pattern, cell after cell in the order of the
/// particles, each cell whose two endpoints lie in the lattice gives one
/// constraint between them. Default constraints fill the rest.
pub open spec fn is_catalog(c: Seq<Constraint>) -> bool {
    &&& c.len() == CONSTRAINT_SLOTS
    &&& forall|k: int, i: int, j: int|
        0 <= k < 6 && 0 <= i < pattern_columns(k) && 0 <= j < pattern_rows(k) ==> {
            let n = #[trigger] catalog_slot(k, i, j);
            let p = pattern(k);
            &&& 0 <= n < NUM_CONSTRAINTS
            &&& c[n].kind == p.kind
            &&& c[n].ids.0 == particle_id(i + p.di0, j + p.dj0)
            &&& c[n].ids.1 == particle_id(i + p.di1, j + p.dj1)
        }
    &&& forall|n: int| NUM_CONSTRAINTS <= n < CONSTRAINT_SLOTS ==> is_default(#[trigger] c[n])
}

/// Each constraint of `c` from slot `from` up to slot `to` has for its rest
/// length the distance of its two endpoints in `pos`.
pub open spec fn has_rest_lengths<A: Arithmetic>(
    ar: &A,
    c: Seq<Constraint>,
    pos: Seq<Vec3>,
    from: int,
    to: int,
) -> bool {
    forall|n: int|
        from <= n < to ==> is_distance(
            ar,
            pos[c[n].ids.0 as int],
            pos[c[n].ids.1 as int],
            (#[trigger] c[n]).rest_len,
        )
}

/// Every endpoint of every constraint of `c` is a particle among `n`.
pub open spec fn endpoints_within(c: Seq<Constraint>, n: int) -> bool {
    forall|k: int| 0 <= k < c.len() ==> (#[trigger] c[k]).ids.0 < n && c[k].ids.1 < n
}

/// The table has a slot for each pattern of each particle, each pattern
/// starts where the one before it ends, and the last ends at
/// `NUM_CONSTRAINTS`.
pub proof fn lemma_catalog_counts()
    ensures
        CONSTRAINT_SLOTS == NUM_PARTICLES * NUM_CONSTRAINTS_PER_PARTICLE,
        pattern_start(0) == 0,
        forall|k: int|
            0 <= k < 6 ==> #[trigger] pattern_start(k + 1) == pattern_start(k) + pattern_columns(k)
                * pattern_rows(k),
        pattern_start(6) == NUM_CONSTRAINTS,
        NUM_CONSTRAINTS <= CONSTRAINT_SLOTS,
{
    assert(30 * 199 == 5970 && 29 * 200 == 5800 && 29 * 199 == 5771 && 30 * 198 == 5940 && 28
        * 200 == 5600 && 6000 * 6 == 36000) by (nonlinear_arith);
    assert forall|k: int| 0 <= k < 6 implies #[trigger] pattern_start(k + 1) == pattern_start(k)
        + pattern_columns(k) * pattern_rows(k) by {
        let columns = pattern_columns(k);
        let rows = pattern_rows(k);
        assert(columns * rows == pattern_start(k + 1) - pattern_start(k)) by (nonlinear_arith)
            requires
                (columns == 30 && rows == 199 && pattern_start(k + 1) - pattern_start(k) == 5970)
                    || (columns == 29 && rows == 200 && pattern_start(k + 1) - pattern_start(k)
                    == 5800) || (columns == 29 && rows == 199 && pattern_start(k + 1)
                    - pattern_start(k) == 5771) || (columns == 30 && rows == 198 && pattern_start(
                    k + 1,
                ) - pattern_start(k) == 5940) || (columns == 28 && rows == 200 && pattern_start(
                    k + 1,
                ) - pattern_start(k) == 5600),
        ;
    }
}

/// The catalog has no other constraints: each slot below `NUM_CONSTRAINTS`
/// is that of a cell of a pattern.
pub proof fn lemma_catalog_covers(n: int)
    requires
        0 <= n < NUM_CONSTRAINTS,
    ensures
        exists|k: int, i: int, j: int|
            0 <= k < 6 && 0 <= i < pattern_columns(k) && 0 <= j < pattern_rows(k) && n
                == #[trigger] catalog_slot(k, i, j),
{
    let k: int = if n < 5970 {
        0
    } else if n < 11770 {
        1
    } else if n < 17541 {
        2
    } else if n < 23312 {
        3
    } else if n < 29252 {
        4
    } else {
        5
    };
    let rows = pattern_rows(k);
    let columns = pattern_columns(k);
    let m = n - pattern_start(k);
    lemma_catalog_counts();
    assert(pattern_start(k + 1) == pattern_start(k) + columns * rows);
    let i = m / rows;
    let j = m % rows;
    assert(i * rows + j == m) by (nonlinear_arith)
        requires
            rows > 0,
            i == m / rows,
            j == m % rows,
    ;
    assert(0 <= i < columns) by (nonlinear_arith)
        requires
            rows > 0,
            i == m / rows,
            0 <= m < columns * rows,
    ;
    assert(catalog_slot(k, i, j) == n);
}

proof fn lemma_slot_order(rows: int, a: int, b: int, i: int, j: int)
    requires
        0 <= a,
        0 <= b < rows,
        0 <= j,
        a < i || (a == i && b < j),
    ensures
        a * rows + b < i * rows + j,
{
    if a < i {
        assert((a + 1) * rows <= i * rows) by (nonlinear_arith)
            requires
                a + 1 <= i,
                rows >= 0,
        ;
        assert((a + 1) * rows == a * rows + rows) by (nonlinear_arith);
    }
}

/// Writes the constraints of one pattern into `c`, from slot `start` on,
/// and returns the slot after the last one written.
fn emit<A: Arithmetic>(
    c: &mut Vec<Constraint>,
    start: usize,
    ar: &A,
    pos: &Vec<Vec3>,
    kind: ConstraintKind,
    di0: usize,
    dj0: usize,
    di1: usize,
    dj1: usize,
    Ghost(columns): Ghost<int>,
    Ghost(rows): Ghost<int>,
) -> (end: usize)
    requires
        pos.len() == NUM_PARTICLES,
        di0 <= 2 && dj0 <= 2 && di1 <= 2 && dj1 <= 2,
        columns == NUM_X - reach(di0 as int, di1 as int),
        rows == NUM_Y - reach(dj0 as int, dj1 as int),
        start + columns * rows <= old(c).len(),
        endpoints_within(old(c)@, NUM_PARTICLES as int),
    ensures
        final(c).len() == old(c).len(),
        endpoints_within(final(c)@, NUM_PARTICLES as int),
        end == start + columns * rows,
        has_rest_lengths(ar, final(c)@, pos@, start as int, end as int),
        forall|n: int| 0 <= n < start || end <= n < old(c).len() ==> final(c)[n] == old(c)[n],
        forall|i: int, j: int|
            0 <= i < columns && 0 <= j < rows ==> {
                let n = #[trigger] slot(start as int, rows, i, j);
                &&& start <= n < end
                &&& final(c)[n].kind == kind
                &&& final(c)[n].ids.0 == particle_id(i + di0, j + dj0)
                &&& final(c)[n].ids.1 == particle_id(i + di1, j + dj1)
            },
{
    let mut n: usize = start;
    let mut i: usize = 0;
    assert(0 * rows == 0) by (nonlinear_arith);
    while i < NUM_X
        invariant
            i <= NUM_X,
            pos.len() == NUM_PARTICLES,
            di0 <= 2 && dj0 <= 2 && di1 <= 2 && dj1 <= 2,
            columns == NUM_X - reach(di0 as int, di1 as int),
            rows == NUM_Y - reach(dj0 as int, dj1 as int),
            start + columns * rows <= c.len(),
            c.len() == old(c).len(),
            endpoints_within(c@, NUM_PARTICLES as int),
            i <= columns ==> n == start + i * rows,
            i > columns ==> n == start + columns * rows,
            start <= n,
            has_rest_lengths(ar, c@, pos@, start as int, n as int),
            forall|m: int| 0 <= m < start || n <= m < c.len() ==> c[m] == old(c)[m],
            forall|a: int, b: int|
                0 <= a < i && a < columns && 0 <= b < rows ==> {
                    let m = #[trigger] slot(start as int, rows, a, b);
                    &&& start <= m < n
                    &&& c[m].kind == kind
                    &&& c[m].ids.0 == particle_id(a + di0, b + dj0)
                    &&& c[m].ids.1 == particle_id(a + di1, b + dj1)
                },
        decreases NUM_X - i,
    {
        let mut j: usize = 0;
        while j < NUM_Y
            invariant
                i < NUM_X,
                j <= NUM_Y,
                pos.len() == NUM_PARTICLES,
                di0 <= 2 && dj0 <= 2 && di1 <= 2 && dj1 <= 2,
                columns == NUM_X - reach(di0 as int, di1 as int),
                rows == NUM_Y - reach(dj0 as int, dj1 as int),
                start + columns * rows <= c.len(),
                c.len() == old(c).len(),
                endpoints_within(c@, NUM_PARTICLES as int),
                i < columns && j <= rows ==> n == start + i * rows + j,
                i < columns && j > rows ==> n == start + i * rows + rows,
                i >= columns ==> n == start + columns * rows,
                start <= n,
                has_rest_lengths(ar, c@, pos@, start as int, n as int),
                forall|m: int| 0 <= m < start || n <= m < c.len() ==> c[m] == old(c)[m],
                forall|a: int, b: int|
                    0 <= a < columns && 0 <= b < rows && (a < i || (a == i && b < j)) ==> {
                        let m = #[trigger] slot(start as int, rows, a, b);
                        &&& start <= m < n
                        &&& c[m].kind == kind
                        &&& c[m].ids.0 == particle_id(a + di0, b + dj0)
                        &&& c[m].ids.1 == particle_id(a + di1, b + dj1)
                    },
            decreases NUM_Y - j,
        {
            let i0: usize = i + di0;
            let j0: usize = j + dj0;
            let i1: usize = i + di1;
            let j1: usize = j + dj1;
            if i0 < NUM_X && j0 < NUM_Y && i1 < NUM_X && j1 < NUM_Y {
                let id0: usize = i0 * NUM_Y + j0;
                let id1: usize = i1 * NUM_Y + j1;
                let rest_len = ar.distance(pos[id0], pos[id1]);
                proof {
                    assert((i + 1) * rows <= columns * rows) by (nonlinear_arith)
                        requires
                            i + 1 <= columns,
                            rows >= 0,
                    ;
                    assert((i + 1) * rows == i * rows + rows) by (nonlinear_arith);
                    assert forall|a: int, b: int|
                        0 <= a < columns && 0 <= b < rows && (a < i || (a == i && b < j)) implies (#[trigger] slot(
                        start as int,
                        rows,
                        a,
                        b,
                    )) < n by {
                        lemma_slot_order(rows, a, b, i as int, j as int);
                    }
                }
                c.set(n, Constraint { ids: (id0, id1), kind, rest_len });
                n = n + 1;
            }
            j = j + 1;
        }
        proof {
            if i < columns {
                assert((i + 1) * rows == i * rows + rows) by (nonlinear_arith);
            }
        }
        i = i + 1;
    }
    n
}

/// Builds the constraint table of the lattice, with each rest length taken
/// as the distance between the two endpoints in `pos`.
pub fn build_catalog<A: Arithmetic>(ar: &A, pos: &Vec<Vec3>) -> (c: Vec<Constraint>)
    requires
        pos.len() == NUM_PARTICLES,
    ensures
        is_catalog(c@),
        endpoints_within(c@, NUM_PARTICLES as int),
        has_rest_lengths(ar, c@, pos@, 0, NUM_CONSTRAINTS as int),
{
    let blank = Constraint {
        ids: (0, 0),
        kind: ConstraintKind::Bending,
        rest_len: Scalar { bits: ZERO_BITS },
    };
    let mut c: Vec<Constraint> = Vec::new();
    let mut n: usize = 0;
    while n < CONSTRAINT_SLOTS
        invariant
            n <= CONSTRAINT_SLOTS,
            c.len() == n,
            forall|m: int| 0 <= m < n ==> #[trigger] c[m] == blank,
            is_default(blank),
        decreases CONSTRAINT_SLOTS - n,
    {
        c.push(blank);
        n = n + 1;
    }
    let e1 = emit(&mut c, 0, ar, pos, ConstraintKind::Stretch, 0, 0, 0, 1, Ghost(30), Ghost(199));
    let ghost c1 = c@;
    let e2 = emit(&mut c, e1, ar, pos, ConstraintKind::Stretch, 0, 0, 1, 0, Ghost(29), Ghost(200));
    let ghost c2 = c@;
    let e3 = emit(&mut c, e2, ar, pos, ConstraintKind::Shear, 0, 0, 1, 1, Ghost(29), Ghost(199));
    let ghost c3 = c@;
    let e4 = emit(&mut c, e3, ar, pos, ConstraintKind::Shear, 0, 1, 1, 0, Ghost(29), Ghost(199));
    let ghost c4 = c@;
    let e5 = emit(&mut c, e4, ar, pos, ConstraintKind::Bending, 0, 0, 0, 2, Ghost(30), Ghost(198));
    let ghost c5 = c@;
    let e6 = emit(&mut c, e5, ar, pos, ConstraintKind::Bending, 0, 0, 2, 0, Ghost(28), Ghost(200));
    proof {
        assert forall|k: int, i: int, j: int|
            0 <= k < 6 && 0 <= i < pattern_columns(k) && 0 <= j < pattern_rows(k) implies ({
            let n = #[trigger] catalog_slot(k, i, j);
            let p = pattern(k);
            &&& 0 <= n < NUM_CONSTRAINTS
            &&& c[n].kind == p.kind
            &&& c[n].ids.0 == particle_id(i + p.di0, j + p.dj0)
            &&& c[n].ids.1 == particle_id(i + p.di1, j + p.dj1)
        }) by {
            let n = slot(pattern_start(k), pattern_rows(k), i, j);
            if k == 0 {
                assert(c1[n] == c[n]);
            } else if k == 1 {
                assert(c2[n] == c[n]);
            } else if k == 2 {
                assert(c3[n] == c[n]);
            } else if k == 3 {
                assert(c4[n] == c[n]);
            } else if k == 4 {
                assert(c5[n] == c[n]);
            }
        }
        assert forall|n: int| 0 <= n < NUM_CONSTRAINTS implies is_distance(
            ar,
            pos[c[n].ids.0 as int],
            pos[c[n].ids.1 as int],
            (#[trigger] c[n]).rest_len,
        ) by {
            if n < e1 {
                assert(c1[n] == c[n]);
            } else if n < e2 {
                assert(c2[n] == c[n]);
            } else if n < e3 {
                assert(c3[n] == c[n]);
            } else if n < e4 {
                assert(c4[n] == c[n]);
            } else if n < e5 {
                assert(c5[n] == c[n]);
            }
        }
    }
    c
}

} // verus!
