use vstd::prelude::*;
use crate::scalar::Scalar;
use crate::vec3::Vec3;

verus! {

/// Candidate neighbours of every point, in compressed rows: those of point
/// `i` are `adj_ids[first_adj_id[i] .. first_adj_id[i + 1]]`.
pub struct Adjacency {
    pub first_adj_id: Vec<usize>,
    pub adj_ids: Vec<usize>,
}

impl Adjacency {
    /// The tables can be read for `n` points: there is an offset for each
    /// point and one more, no row ends beyond the neighbour table, and every
    /// neighbour is one of the points.
    pub open spec fn wf(&self, n: int) -> bool {
        &&& self.first_adj_id.len() == n + 1
        &&& forall|i: int|
            0 <= i <= n ==> (#[trigger] self.first_adj_id[i]) <= self.adj_ids.len()
        &&& forall|j: int| 0 <= j < self.adj_ids.len() ==> (#[trigger] self.adj_ids[j]) < n
    }

    /// Point `k` is among the candidate neighbours of point `i`.
    pub open spec fn pairs(&self, i: int, k: int) -> bool {
        exists|j: int|
            self.first_adj_id[i] <= j < self.first_adj_id[i + 1] && #[trigger] self.adj_ids[j]
                == k
    }

    /// Tables without a neighbour, for `n` points.
    pub fn empty(n: usize) -> (a: Adjacency)
        requires
            n < usize::MAX,
        ensures
            a.wf(n as int),
            a.adj_ids.len() == 0,
    {
        let mut first: Vec<usize> = Vec::new();
        let mut i: usize = 0;
        while i <= n
            invariant
                i <= n + 1,
                n < usize::MAX,
                first.len() == i,
                forall|k: int| 0 <= k < i ==> #[trigger] first[k] == 0,
            decreases n + 1 - i,
        {
            first.push(0);
            i = i + 1;
        }
        Adjacency { first_adj_id: first, adj_ids: Vec::new() }
    }

    /// Whether the tables can be read for `n` points.
    pub fn is_valid(&self, n: usize) -> (ok: bool)
        ensures
            ok == self.wf(n as int),
    {
        if n == usize::MAX || self.first_adj_id.len() != n + 1 {
            return false;
        }
        let mut i: usize = 0;
        while i <= n
            invariant
                i <= n + 1,
                self.first_adj_id.len() == n + 1,
                forall|k: int|
                    0 <= k < i ==> (#[trigger] self.first_adj_id[k]) <= self.adj_ids.len(),
            decreases n + 1 - i,
        {
            if self.first_adj_id[i] > self.adj_ids.len() {
                return false;
            }
            i = i + 1;
        }
        let mut j: usize = 0;
        while j < self.adj_ids.len()
            invariant
                j <= self.adj_ids.len(),
                forall|k: int| 0 <= k < j ==> (#[trigger] self.adj_ids[k]) < n,
            decreases self.adj_ids.len() - j,
        {
            if self.adj_ids[j] >= n {
                return false;
            }
            j = j + 1;
        }
        true
    }
}

/// A broad phase over moving points, supplied by the caller.
///
/// It is asked for every pair that may come within a distance; pairs that
/// are farther apart do no harm. Nothing is assumed of the tables it hands
/// back: the solver reads them only after `Adjacency::is_valid`, and says
/// of the tables it used to which question they are an answer
/// (`is_answer`).
pub trait BroadPhase {
    /// Rebuilds the structure over `points`.
    fn create(&mut self, points: &Vec<Vec3>);

    /// The candidate neighbours of each point within `max_dist`.
    fn query_all(&self, points: &Vec<Vec3>, max_dist: Scalar) -> Adjacency;
}

/// `tables` is an answer of `hash` to `query_all(points, max_dist)`.
#[verifier::inline]
pub open spec fn is_answer<H: BroadPhase>(
    hash: &H,
    points: &Vec<Vec3>,
    max_dist: Scalar,
    tables: Adjacency,
) -> bool {
    call_ensures(H::query_all, (hash, points, max_dist), tables)
}

} // verus!
