use vstd::prelude::*;
use crate::vec3::Vec3;

verus! {

/// A tetrahedral mesh, as a mesh provider supplies it.
pub struct TetMesh {
    pub vertices: Vec<Vec3>,
    /// The four vertices of each tetrahedron.
    pub tet_ids: Vec<[usize; 4]>,
    /// The edges of the mesh, each once, as pairs of vertices one after the
    /// other.
    pub tet_edge_ids: Vec<usize>,
    /// The triangles of the surface, three vertices each one after the
    /// other; only a renderer reads them.
    pub tet_surface_tri_ids: Vec<usize>,
}

/// The mesh as mathematical sequences.
pub struct TetMeshView {
    pub vertices: Seq<Vec3>,
    pub tet_ids: Seq<[usize; 4]>,
    pub tet_edge_ids: Seq<usize>,
    pub tet_surface_tri_ids: Seq<usize>,
}

impl View for TetMesh {
    type V = TetMeshView;

    open spec fn view(&self) -> TetMeshView {
        TetMeshView {
            vertices: self.vertices@,
            tet_ids: self.tet_ids@,
            tet_edge_ids: self.tet_edge_ids@,
            tet_surface_tri_ids: self.tet_surface_tri_ids@,
        }
    }
}

/// Vertex `i` is a corner of one of the first `n` tetrahedra of `tet_ids`.
pub open spec fn is_corner(tet_ids: Seq<[usize; 4]>, n: int, i: int) -> bool {
    exists|t: int, m: int| 0 <= t < n && 0 <= m < 4 && #[trigger] tet_ids[t][m] == i
}

/// Vertex `i` is among the first `n` entries of the edge list `edge_ids`.
pub open spec fn is_endpoint(edge_ids: Seq<usize>, n: int, i: int) -> bool {
    exists|e: int| 0 <= e < n && #[trigger] edge_ids[e] == i
}

impl TetMesh {
    /// Every tetrahedron and every edge names vertices of the mesh, and the
    /// edge list is made of pairs.
    pub open spec fn wf(&self) -> bool {
        &&& forall|t: int, m: int|
            0 <= t < self.tet_ids.len() && 0 <= m < 4 ==> (#[trigger] self.tet_ids[t][m])
                < self.vertices.len()
        &&& self.tet_edge_ids.len() % 2 == 0
        &&& forall|e: int|
            0 <= e < self.tet_edge_ids.len() ==> (#[trigger] self.tet_edge_ids[e])
                < self.vertices.len()
    }

    /// Whether the mesh is well formed.
    pub fn is_well_formed(&self) -> (ok: bool)
        ensures
            ok == self.wf(),
    {
        let n = self.vertices.len();
        let mut t: usize = 0;
        while t < self.tet_ids.len()
            invariant
                t <= self.tet_ids.len(),
                n == self.vertices.len(),
                forall|a: int, m: int|
                    0 <= a < t && 0 <= m < 4 ==> (#[trigger] self.tet_ids[a][m]) < n,
            decreases self.tet_ids.len() - t,
        {
            let tet = self.tet_ids[t];
            if tet[0] >= n || tet[1] >= n || tet[2] >= n || tet[3] >= n {
                return false;
            }
            t = t + 1;
        }
        if self.tet_edge_ids.len() % 2 != 0 {
            return false;
        }
        let mut e: usize = 0;
        while e < self.tet_edge_ids.len()
            invariant
                e <= self.tet_edge_ids.len(),
                n == self.vertices.len(),
                forall|a: int| 0 <= a < e ==> (#[trigger] self.tet_edge_ids[a]) < n,
            decreases self.tet_edge_ids.len() - e,
        {
            if self.tet_edge_ids[e] >= n {
                return false;
            }
            e = e + 1;
        }
        true
    }
}

} // verus!
