use vstd::prelude::*;
use crate::arith::{
    is_cross, is_difference, is_distance, is_divided, is_dot, is_length_squared, is_product,
    is_quotient, is_scaled, is_sum, is_vec_difference, is_vec_sum, Arithmetic,
};
use crate::mesh::{is_corner, is_endpoint, TetMesh, TetMeshView};
use crate::particles::{
    filled, is_accelerated, is_advanced, is_alpha, is_pick, is_step, is_substep_time, is_velocity,
    Particles, ParticlesView, GRAVITY_Y_BITS, TIME_STEP_BITS,
};
use crate::scalar::{Scalar, FOUR_BITS, HALF_BITS, ONE_BITS, SIX_BITS, ZERO_BITS};
use crate::vec3::Vec3;

verus! {

/// A soft body: a tetrahedral mesh whose edges keep their lengths and whose
/// tetrahedra keep their volumes, as far as the two compliances make them.
pub struct SoftBody {
    pub num_particles: usize,
    pub num_tets: usize,
    pub num_substeps: usize,
    pub dt: Scalar,
    pub inv_dt: Scalar,
    pub tet_ids: Vec<[usize; 4]>,
    pub edge_ids: Vec<usize>,
    pub particles: Particles,
    /// The signed volume that each tetrahedron had at construction.
    pub rest_vol: Vec<Scalar>,
    /// The length that each edge had at construction.
    pub edge_lens: Vec<Scalar>,
    pub edge_compliance: Scalar,
    pub vol_compliance: Scalar,
    /// The mesh that the body was made from.
    pub mesh: TetMesh,
}

/// The body as mathematical values.
pub struct SoftBodyView {
    pub num_particles: usize,
    pub num_tets: usize,
    pub num_substeps: usize,
    pub dt: Scalar,
    pub inv_dt: Scalar,
    pub tet_ids: Seq<[usize; 4]>,
    pub edge_ids: Seq<usize>,
    pub particles: ParticlesView,
    pub rest_vol: Seq<Scalar>,
    pub edge_lens: Seq<Scalar>,
    pub edge_compliance: Scalar,
    pub vol_compliance: Scalar,
    pub mesh: TetMeshView,
}

impl View for SoftBody {
    type V = SoftBodyView;

    open spec fn view(&self) -> SoftBodyView {
        SoftBodyView {
            num_particles: self.num_particles,
            num_tets: self.num_tets,
            num_substeps: self.num_substeps,
            dt: self.dt,
            inv_dt: self.inv_dt,
            tet_ids: self.tet_ids@,
            edge_ids: self.edge_ids@,
            particles: self.particles@,
            rest_vol: self.rest_vol@,
            edge_lens: self.edge_lens@,
            edge_compliance: self.edge_compliance,
            vol_compliance: self.vol_compliance,
            mesh: self.mesh@,
        }
    }
}

/// `new_vel` and `new_pos` are what the first step of a substep makes of a
/// particle at `pos` with velocity `vel`: the velocity gains `gravity * dt`,
/// and the position moves on by the new velocity times `dt`, but that a
/// particle which would come below the ground stays where it is, at height
/// zero.
pub open spec fn is_pre_solved<A: Arithmetic>(
    ar: &A,
    dt: Scalar,
    pos: Vec3,
    vel: Vec3,
    new_pos: Vec3,
    new_vel: Vec3,
) -> bool {
    is_accelerated(ar, vel, dt, new_vel) && exists|q: Vec3| #[trigger]
        is_advanced(ar, pos, new_vel, dt, q) && new_pos == if q.y.spec_lt(Scalar::zero()) {
            pos.spec_with_y(Scalar::zero())
        } else {
            q
        }
}

/// `chain` holds the states of `n` substeps from `first` to `last`: both
/// ends and the states in between, each a substep from the one before it.
pub open spec fn is_substep_chain<A: Arithmetic>(
    ar: &A,
    chain: Seq<SoftBodyView>,
    first: SoftBodyView,
    last: SoftBodyView,
    n: nat,
) -> bool {
    &&& chain.len() == n + 1
    &&& chain[0] == first
    &&& chain[n as int] == last
    &&& forall|k: int| 0 <= k < n ==> chain[k + 1].substepped(ar, #[trigger] chain[k])
}

/// A substep after `n` substeps makes `n + 1` substeps, and no substep
/// leaves the state as it is.
pub proof fn lemma_one_more_substep<A: Arithmetic>(
    ar: &A,
    before: SoftBodyView,
    mid: SoftBodyView,
    after: SoftBodyView,
    n: nat,
)
    requires
        mid.after_substeps(ar, before, n),
        after.substepped(ar, mid),
    ensures
        after.after_substeps(ar, before, n + 1),
        before.after_substeps(ar, before, 0),
{
    let chain = choose|chain: Seq<SoftBodyView>| #[trigger]
        is_substep_chain(ar, chain, before, mid, n);
    let longer = chain.push(after);
    assert forall|k: int| 0 <= k < n + 1 implies longer[k + 1].substepped(
        ar,
        #[trigger] longer[k],
    ) by {
        if k < n {
            assert(longer[k + 1] == chain[k + 1]);
            assert(longer[k] == chain[k]);
        }
    }
    assert(is_substep_chain(ar, longer, before, after, n + 1));
    assert(is_substep_chain(ar, seq![before], before, before, 0));
}

/// After at least one substep, the state is a substep from what the
/// substeps before the last made, and after none it is what it was.
pub proof fn lemma_substeps_remember<A: Arithmetic>(
    ar: &A,
    before: SoftBodyView,
    after: SoftBodyView,
    n: nat,
)
    requires
        after.after_substeps(ar, before, n),
    ensures
        n == 0 ==> after == before,
        n > 0 ==> exists|mid: SoftBodyView|
            (#[trigger] mid.after_substeps(ar, before, (n - 1) as nat)) && after.substepped(ar, mid),
{
    let chain = choose|chain: Seq<SoftBodyView>| #[trigger]
        is_substep_chain(ar, chain, before, after, n);
    if n > 0 {
        let mid = chain[n - 1];
        let shorter = chain.take(n as int);
        assert forall|k: int| 0 <= k < n - 1 implies shorter[k + 1].substepped(
            ar,
            #[trigger] shorter[k],
        ) by {
            assert(shorter[k + 1] == chain[k + 1]);
            assert(shorter[k] == chain[k]);
        }
        assert(is_substep_chain(ar, shorter, before, mid, (n - 1) as nat));
        assert(chain[(n - 1) + 1].substepped(ar, chain[n - 1]));
        assert(mid.after_substeps(ar, before, (n - 1) as nat) && after.substepped(ar, mid));
    }
}

impl SoftBodyView {
    /// Every particle has each attribute, every tetrahedron a rest volume
    /// and every edge a rest length, and both name particles of the body.
    pub open spec fn wf(self) -> bool {
        &&& self.particles.wf()
        &&& self.particles.pos.len() == self.num_particles
        &&& self.tet_ids.len() == self.num_tets
        &&& self.rest_vol.len() == self.num_tets
        &&& self.edge_ids.len() == 2 * self.edge_lens.len()
        &&& forall|t: int, m: int|
            0 <= t < self.tet_ids.len() && 0 <= m < 4 ==> (#[trigger] self.tet_ids[t][m])
                < self.num_particles
        &&& forall|e: int|
            0 <= e < self.edge_ids.len() ==> (#[trigger] self.edge_ids[e]) < self.num_particles
    }

    /// `self` and `before` differ in their particles at most: mesh, rest
    /// state, substeps and compliances are the same.
    pub open spec fn differs_in_particles(self, before: SoftBodyView) -> bool {
        self == (SoftBodyView { particles: self.particles, ..before })
    }

    /// `self` is what a solver step can make of `before`: the two differ in
    /// the positions of particles that are not kinematic at most.
    pub open spec fn repositioned(self, before: SoftBodyView) -> bool {
        &&& self.differs_in_particles(before)
        &&& self.particles.differs_in_pos(before.particles)
        &&& self.particles.pos.len() == before.particles.pos.len()
        &&& self.particles.keeps_kinematic_pos(before.particles)
    }

    /// `self` is what whole substeps can make of `before`: the two differ
    /// in the positions, previous positions and velocities of particles that
    /// are not kinematic at most.
    pub open spec fn stepped(self, before: SoftBodyView) -> bool {
        &&& self.differs_in_particles(before)
        &&& self.particles.differs_in_motion(before.particles)
        &&& self.particles.pos.len() == before.particles.pos.len()
        &&& self.particles.keeps_kinematic_pos(before.particles)
        &&& self.particles.keeps_kinematic_prev(before.particles)
        &&& self.particles.keeps_kinematic_vel(before.particles)
    }

    /// `after` is `self` after the first step of a substep: every particle
    /// that can move has the velocity and the position that `is_pre_solved`
    /// gives it, and the position it had as its previous one; the others are
    /// as they were.
    #[verifier::opaque]
    pub open spec fn pre_solved<A: Arithmetic>(self, ar: &A, after: SoftBodyView) -> bool {
        &&& after.stepped(self)
        &&& after.particles.remembers(self.particles)
        &&& forall|i: int|
            0 <= i < self.particles.pos.len() && !self.particles.is_kinematic(i) ==> is_pre_solved(
                ar,
                self.dt,
                self.particles.pos[i],
                self.particles.vel[i],
                after.particles.pos[i],
                #[trigger] after.particles.vel[i],
            )
    }

    /// `after` is `self` with the velocities recovered: every particle that
    /// can move has the velocity `(pos - prev) * inv_dt`.
    #[verifier::opaque]
    pub open spec fn velocities_recovered<A: Arithmetic>(self, ar: &A, after: SoftBodyView) -> bool {
        &&& after.differs_in_particles(self)
        &&& after.particles.differs_in_vel(self.particles)
        &&& after.particles.keeps_kinematic_vel(self.particles)
        &&& forall|i: int|
            0 <= i < self.particles.pos.len() && !self.particles.is_kinematic(i) ==> is_velocity(
                ar,
                self.particles.pos[i],
                self.particles.prev[i],
                self.inv_dt,
                #[trigger] after.particles.vel[i],
            )
    }

    /// `self` is what one substep makes of `before`: the first step, the
    /// edges and the volumes, and the velocities. Every particle that can
    /// move then has the position it started from as its previous one, and
    /// every other is as it was.
    pub open spec fn substepped<A: Arithmetic>(self, ar: &A, before: SoftBodyView) -> bool {
        &&& self.stepped(before)
        &&& self.particles.remembers(before.particles)
        &&& exists|s1: SoftBodyView, s2: SoftBodyView|
            #[trigger] before.pre_solved(ar, s1) && #[trigger] s1.solved(ar, s2)
                && s2.velocities_recovered(ar, self)
    }

    /// `self` is what `n` substeps make of `before`, one after the other:
    /// there are the states in between, each a substep from the one before
    /// it.
    pub open spec fn after_substeps<A: Arithmetic>(
        self,
        ar: &A,
        before: SoftBodyView,
        n: nat,
    ) -> bool {
        exists|chain: Seq<SoftBodyView>| #[trigger] is_substep_chain(ar, chain, before, self, n)
    }

    /// Every particle that is no corner of a tetrahedron is in `self` where
    /// it was in `before`.
    pub open spec fn keeps_pos_off_tets(self, before: SoftBodyView) -> bool {
        forall|i: int|
            0 <= i < before.particles.pos.len() && !is_corner(
                before.tet_ids,
                before.tet_ids.len() as int,
                i,
            ) ==> #[trigger] self.particles.pos[i] == before.particles.pos[i]
    }

    /// Every particle that no edge ends in is in `self` where it was in
    /// `before`.
    pub open spec fn keeps_pos_off_edges(self, before: SoftBodyView) -> bool {
        forall|i: int|
            0 <= i < before.particles.pos.len() && !is_endpoint(
                before.edge_ids,
                before.edge_ids.len() as int,
                i,
            ) ==> #[trigger] self.particles.pos[i] == before.particles.pos[i]
    }

    /// Every particle that is neither a corner of a tetrahedron nor an end
    /// of an edge is in `self` where it was in `before`.
    pub open spec fn keeps_pos_off_mesh(self, before: SoftBodyView) -> bool {
        forall|i: int|
            0 <= i < before.particles.pos.len() && !is_corner(
                before.tet_ids,
                before.tet_ids.len() as int,
                i,
            ) && !is_endpoint(before.edge_ids, before.edge_ids.len() as int, i)
                ==> #[trigger] self.particles.pos[i] == before.particles.pos[i]
    }

    /// Every particle that is no corner of a tetrahedron has in `self` the
    /// inverse mass that it had in `before`.
    pub open spec fn keeps_mass_off_tets(self, before: SoftBodyView) -> bool {
        forall|i: int|
            0 <= i < before.particles.pos.len() && !is_corner(
                before.tet_ids,
                before.tet_ids.len() as int,
                i,
            ) ==> #[trigger] self.particles.inv_mass[i] == before.particles.inv_mass[i]
    }

    /// `g` is the gradient of the volume of tetrahedron `t` by its corner
    /// `j`: the area vector of the opposite face, over six.
    pub open spec fn is_gradient<A: Arithmetic>(self, ar: &A, t: int, j: int, g: Vec3) -> bool {
        is_face_gradient(
            ar,
            self.particles.pos[self.tet_ids[t][opposite_face(j).0] as int],
            self.particles.pos[self.tet_ids[t][opposite_face(j).1] as int],
            self.particles.pos[self.tet_ids[t][opposite_face(j).2] as int],
            g,
        )
    }

    /// `vol` is the signed volume of tetrahedron `t`.
    pub open spec fn is_volume<A: Arithmetic>(self, ar: &A, t: int, vol: Scalar) -> bool {
        is_tet_volume(
            ar,
            self.particles.pos[self.tet_ids[t][0] as int],
            self.particles.pos[self.tet_ids[t][1] as int],
            self.particles.pos[self.tet_ids[t][2] as int],
            self.particles.pos[self.tet_ids[t][3] as int],
            vol,
        )
    }

    /// `g` holds the four gradients of tetrahedron `t`, and `w` the weight
    /// as it grows from zero by the share of one corner after the other.
    pub open spec fn is_weighing<A: Arithmetic>(
        self,
        ar: &A,
        t: int,
        g: Seq<Vec3>,
        w: Seq<Scalar>,
    ) -> bool {
        &&& g.len() == 4
        &&& w.len() == 5
        &&& w[0] == Scalar::zero()
        &&& forall|j: int|
            0 <= j < 4 ==> self.is_gradient(ar, t, j, #[trigger] g[j]) && is_weighed(
                ar,
                w[j],
                self.particles.inv_mass[self.tet_ids[t][j] as int],
                g[j],
                w[j + 1],
            )
    }

    /// `chain` holds the particles as the four corners of tetrahedron `t`
    /// are moved one after the other, each along its gradient by the step
    /// `s`, from `self` to `after`.
    pub open spec fn is_corner_chain<A: Arithmetic>(
        self,
        ar: &A,
        t: int,
        g: Seq<Vec3>,
        s: Scalar,
        chain: Seq<ParticlesView>,
        after: SoftBodyView,
    ) -> bool {
        &&& chain.len() == 5
        &&& chain[0] == self.particles
        &&& chain[4] == after.particles
        &&& after.differs_in_particles(self)
        &&& forall|m: int|
            0 <= m < 4 ==> (#[trigger] chain[m]).moved_along(
                ar,
                self.tet_ids[t][m] as int,
                g[m],
                s,
                chain[m + 1],
            )
    }

    /// `after` is `self` with the volume constraint of tetrahedron `t`
    /// projected once. With `g_j` the gradient by corner `j` and `w` the sum
    /// of `inv_mass * |g_j|²` over the corners, nothing moves where `w` is
    /// zero. Else, with `s = -(volume - rest volume) / (w + alpha)`, the
    /// corners are moved one after the other, corner `j` along `g_j` by `s`.
    pub open spec fn volume_projected<A: Arithmetic>(
        self,
        ar: &A,
        t: int,
        alpha: Scalar,
        after: SoftBodyView,
    ) -> bool {
        exists|g: Seq<Vec3>, w: Seq<Scalar>| #[trigger]
            self.is_weighing(ar, t, g, w) && if w[4].spec_is_zero() {
                after == self
            } else {
                exists|vol: Scalar, c: Scalar, s: Scalar, chain: Seq<ParticlesView>|
                    #[trigger] self.is_volume(ar, t, vol) && is_difference(ar, vol, self.rest_vol[t], c)
                        && #[trigger] is_step(ar, c, w[4], alpha, s) && #[trigger] self.is_corner_chain(
                        ar,
                        t,
                        g,
                        s,
                        chain,
                        after,
                    )
            }
    }

    /// `chain` holds the particles as the edges are projected one after
    /// the other, in the order of the mesh and each with the compliance term
    /// `alpha`, from `self` to `after`.
    #[verifier::opaque]
    pub open spec fn is_edge_sweep<A: Arithmetic>(
        self,
        ar: &A,
        alpha: Scalar,
        chain: Seq<ParticlesView>,
        after: SoftBodyView,
    ) -> bool {
        &&& chain.len() == self.edge_lens.len() + 1
        &&& chain[0] == self.particles
        &&& chain[self.edge_lens.len() as int] == after.particles
        &&& after.differs_in_particles(self)
        &&& forall|e: int|
            0 <= e < self.edge_lens.len() ==> (#[trigger] chain[e]).distance_projected(
                ar,
                self.edge_ids[2 * e] as int,
                self.edge_ids[2 * e + 1] as int,
                self.edge_lens[e],
                alpha,
                chain[e + 1],
            )
    }

    /// `after` is `self` after one sweep over the edges, with the edge
    /// compliance times `inv_dt` squared for the compliance term.
    pub open spec fn edges_solved<A: Arithmetic>(self, ar: &A, after: SoftBodyView) -> bool {
        exists|alpha: Scalar, chain: Seq<ParticlesView>|
            #[trigger] is_alpha(ar, self.edge_compliance, self.inv_dt, alpha)
                && #[trigger] self.is_edge_sweep(ar, alpha, chain, after)
    }

    /// `chain` holds the body as the volume constraints of the tetrahedra
    /// are projected one after the other, in the order of the mesh and each
    /// with the compliance term `alpha`, from `self` to `after`.
    #[verifier::opaque]
    pub open spec fn is_volume_sweep<A: Arithmetic>(
        self,
        ar: &A,
        alpha: Scalar,
        chain: Seq<SoftBodyView>,
        after: SoftBodyView,
    ) -> bool {
        &&& chain.len() == self.tet_ids.len() + 1
        &&& chain[0] == self
        &&& chain[self.tet_ids.len() as int] == after
        &&& forall|t: int|
            0 <= t < self.tet_ids.len() ==> (#[trigger] chain[t]).volume_projected(
                ar,
                t,
                alpha,
                chain[t + 1],
            )
    }

    /// `after` is `self` after one sweep over the tetrahedra, with the
    /// volume compliance times `inv_dt` squared for the compliance term.
    pub open spec fn volumes_solved<A: Arithmetic>(self, ar: &A, after: SoftBodyView) -> bool {
        exists|alpha: Scalar, chain: Seq<SoftBodyView>|
            #[trigger] is_alpha(ar, self.vol_compliance, self.inv_dt, alpha)
                && #[trigger] self.is_volume_sweep(ar, alpha, chain, after)
    }

    /// `after` is `self` after the edges and then the volumes were solved.
    pub open spec fn solved<A: Arithmetic>(self, ar: &A, after: SoftBodyView) -> bool {
        exists|mid: SoftBodyView| #[trigger]
            self.edges_solved(ar, mid) && mid.volumes_solved(ar, after)
    }

    /// `chain` holds the inverse masses as the tetrahedra add their shares
    /// one after the other, in the order of the mesh, from those of `self`
    /// to those of `after`, each by the rest volume that it has in `after`.
    #[verifier::opaque]
    pub open spec fn is_mass_sweep<A: Arithmetic>(
        self,
        ar: &A,
        chain: Seq<Seq<Scalar>>,
        after: SoftBodyView,
    ) -> bool {
        &&& chain.len() == self.tet_ids.len() + 1
        &&& chain[0] == self.particles.inv_mass
        &&& chain[self.tet_ids.len() as int] == after.particles.inv_mass
        &&& forall|t: int|
            0 <= t < self.tet_ids.len() ==> is_mass_step(
                ar,
                self.tet_ids[t],
                after.rest_vol[t],
                #[trigger] chain[t],
                chain[t + 1],
            )
    }

    /// `after` has the rest state of `self`: each rest volume is the volume
    /// of its tetrahedron, each rest length the distance of the ends of its
    /// edge, and the inverse masses are those of `self` with the shares of
    /// all tetrahedra added.
    pub open spec fn initialised<A: Arithmetic>(self, ar: &A, after: SoftBodyView) -> bool {
        &&& forall|t: int|
            0 <= t < self.tet_ids.len() ==> self.is_volume(ar, t, #[trigger] after.rest_vol[t])
        &&& forall|e: int|
            0 <= e < self.edge_lens.len() ==> is_distance(
                ar,
                self.particles.pos[self.edge_ids[2 * e] as int],
                self.particles.pos[self.edge_ids[2 * e + 1] as int],
                #[trigger] after.edge_lens[e],
            )
        &&& exists|chain: Seq<Seq<Scalar>>| #[trigger] self.is_mass_sweep(ar, chain, after)
    }

    /// `self` before it has a rest state: with every inverse mass, rest
    /// volume and rest length zero.
    pub open spec fn blank(self) -> SoftBodyView {
        SoftBodyView {
            particles: ParticlesView {
                inv_mass: Seq::new(self.particles.inv_mass.len(), |i: int| Scalar::zero()),
                ..self.particles
            },
            rest_vol: Seq::new(self.rest_vol.len(), |t: int| Scalar::zero()),
            edge_lens: Seq::new(self.edge_lens.len(), |e: int| Scalar::zero()),
            ..self
        }
    }

    /// No particle that can move lies below the ground.
    pub open spec fn above_ground(self) -> bool {
        forall|i: int|
            0 <= i < self.particles.pos.len() && !self.particles.is_kinematic(i) ==> !(
            #[trigger] self.particles.pos[i]).y.spec_lt(Scalar::zero())
    }
}

/// A copy of `v`.
fn copied(v: &Vec<[usize; 4]>) -> (r: Vec<[usize; 4]>)
    ensures
        r@ == v@,
{
    let mut r: Vec<[usize; 4]> = Vec::new();
    let mut i: usize = 0;
    while i < v.len()
        invariant
            i <= v.len(),
            r@ == v@.take(i as int),
        decreases v.len() - i,
    {
        r.push(v[i]);
        proof {
            assert(v@.take(i + 1) =~= v@.take(i as int).push(v[i as int]));
        }
        i = i + 1;
    }
    proof {
        assert(v@.take(v.len() as int) =~= v@);
    }
    r
}

/// `vol` is the signed volume of the tetrahedron with the corners `p0` to
/// `p3`: `((p1 - p0) × (p2 - p0)) · (p3 - p0) / 6`.
pub open spec fn is_tet_volume<A: Arithmetic>(
    ar: &A,
    p0: Vec3,
    p1: Vec3,
    p2: Vec3,
    p3: Vec3,
    vol: Scalar,
) -> bool {
    exists|a: Vec3, b: Vec3, c: Vec3, n: Vec3, d: Scalar|
        is_vec_difference(ar, p1, p0, a) && is_vec_difference(ar, p2, p0, b) && is_vec_difference(
            ar,
            p3,
            p0,
            c,
        ) && is_cross(ar, a, b, n) && is_dot(ar, n, c, d) && is_quotient(
            ar,
            d,
            Scalar { bits: SIX_BITS },
            vol,
        )
}

/// `g` is the area vector of the face with the corners `a`, `b`, `c`, over
/// six: `((b - a) × (c - a)) / 6`.
pub open spec fn is_face_gradient<A: Arithmetic>(ar: &A, a: Vec3, b: Vec3, c: Vec3, g: Vec3) -> bool {
    exists|u: Vec3, v: Vec3, n: Vec3|
        is_vec_difference(ar, b, a, u) && is_vec_difference(ar, c, a, v) && is_cross(ar, u, v, n)
            && is_divided(ar, n, Scalar { bits: SIX_BITS }, g)
}

/// `share` is what a tetrahedron of volume `vol` adds to the inverse mass of
/// each of its corners: `1 / (vol / 4)` where the volume is above zero, and
/// zero where it is not.
pub open spec fn is_share<A: Arithmetic>(ar: &A, vol: Scalar, share: Scalar) -> bool {
    if vol.spec_gt(Scalar::zero()) {
        exists|q: Scalar|
            is_quotient(ar, vol, Scalar { bits: FOUR_BITS }, q) && is_quotient(
                ar,
                Scalar { bits: ONE_BITS },
                q,
                share,
            )
    } else {
        share == Scalar::zero()
    }
}

/// `chain` holds the inverse masses as `share` is added to that of each
/// corner of `tet`, one after the other, from `a` to `b`.
pub open spec fn is_mass_chain<A: Arithmetic>(
    ar: &A,
    tet: [usize; 4],
    share: Scalar,
    chain: Seq<Seq<Scalar>>,
    a: Seq<Scalar>,
    b: Seq<Scalar>,
) -> bool {
    &&& chain.len() == 5
    &&& chain[0] == a
    &&& chain[4] == b
    &&& forall|m: int|
        0 <= m < 4 ==> is_sum(
            ar,
            (#[trigger] chain[m])[tet[m] as int],
            share,
            chain[m + 1][tet[m] as int],
        ) && chain[m + 1] == chain[m].update(tet[m] as int, chain[m + 1][tet[m] as int])
}

/// `b` is the inverse masses `a` with the share of a tetrahedron of volume
/// `vol` added to that of each corner of `tet`.
pub open spec fn is_mass_step<A: Arithmetic>(
    ar: &A,
    tet: [usize; 4],
    vol: Scalar,
    a: Seq<Scalar>,
    b: Seq<Scalar>,
) -> bool {
    exists|share: Scalar, chain: Seq<Seq<Scalar>>|
        #[trigger] is_share(ar, vol, share) && #[trigger] is_mass_chain(ar, tet, share, chain, a, b)
}

/// `r` is the weight `w` with the share of one more corner, of inverse mass
/// `m` and gradient `g`: `w + m * |g|²`.
pub open spec fn is_weighed<A: Arithmetic>(ar: &A, w: Scalar, m: Scalar, g: Vec3, r: Scalar) -> bool {
    exists|q: Scalar, x: Scalar|
        is_length_squared(ar, g, q) && is_product(ar, m, q, x) && is_sum(ar, w, x, r)
}

/// The face of a tetrahedron that lies opposite its corner `j`, as three
/// corners in the order that makes the normal of the face point the way in
/// which the volume grows when corner `j` moves.
pub open spec fn opposite_face(j: int) -> (int, int, int) {
    if j == 0 {
        (1, 3, 2)
    } else if j == 1 {
        (0, 2, 3)
    } else if j == 2 {
        (0, 3, 1)
    } else {
        (0, 1, 2)
    }
}

/// The face opposite corner `j`.
pub fn face_opposite(j: usize) -> (f: (usize, usize, usize))
    requires
        j < 4,
    ensures
        (f.0 as int, f.1 as int, f.2 as int) == opposite_face(j as int),
{
    if j == 0 {
        (1, 3, 2)
    } else if j == 1 {
        (0, 2, 3)
    } else if j == 2 {
        (0, 3, 1)
    } else {
        (0, 1, 2)
    }
}

impl SoftBody {
    /// A body at rest in the shape of `mesh`, with a particle for each
    /// vertex. Each tetrahedron has its signed volume as rest volume and
    /// gives each of its corners the inverse mass `1 / (volume / 4)`, or
    /// zero where its volume is not above zero; each edge has its length as
    /// rest length.
    pub fn new<A: Arithmetic>(
        ar: &A,
        mesh: TetMesh,
        num_substeps: usize,
        edge_compliance: Scalar,
        vol_compliance: Scalar,
    ) -> (body: SoftBody)
        requires
            mesh.wf(),
            num_substeps >= 1,
        ensures
            body@.wf(),
            body.mesh@ == mesh@,
            body.num_particles == mesh.vertices.len(),
            body.num_tets == mesh.tet_ids.len(),
            body.num_substeps == num_substeps,
            is_substep_time(ar, num_substeps, body.dt, body.inv_dt),
            body@.blank().initialised(ar, body@),
            body.tet_ids@ == mesh.tet_ids@,
            body.edge_ids@ == mesh.tet_edge_ids@,
            body.particles.pos@ == mesh.vertices@,
            body.particles.prev@ == mesh.vertices@,
            forall|i: int|
                0 <= i < body.num_particles ==> #[trigger] body.particles.vel[i] == Vec3::zero(),
            forall|i: int|
                0 <= i < body.num_particles && !is_corner(
                    mesh.tet_ids@,
                    mesh.tet_ids.len() as int,
                    i,
                ) ==> #[trigger] body.particles.inv_mass[i] == Scalar::zero(),
            body.particles.grab_id is None,
            body.particles.grab_inv_mass == Scalar::zero(),
            body.edge_compliance == edge_compliance,
            body.vol_compliance == vol_compliance,
    {
        let num_particles = mesh.vertices.len();
        let num_tets = mesh.tet_ids.len();
        let num_edges = mesh.tet_edge_ids.len();
        let zero = Scalar { bits: ZERO_BITS };
        let dt = ar.quotient(Scalar { bits: TIME_STEP_BITS }, ar.from_count(num_substeps));
        let mut body = SoftBody {
            num_particles,
            num_tets,
            num_substeps,
            dt,
            inv_dt: ar.quotient(Scalar { bits: ONE_BITS }, dt),
            edge_ids: mesh.tet_edge_ids.clone(),
            tet_ids: copied(&mesh.tet_ids),
            particles: Particles {
                pos: mesh.vertices.clone(),
                prev: mesh.vertices.clone(),
                vel: filled(Vec3::zeros(), num_particles),
                inv_mass: filled(zero, num_particles),
                grab_inv_mass: zero,
                grab_id: None,
            },
            rest_vol: filled(zero, num_tets),
            edge_lens: filled(zero, num_edges / 2),
            edge_compliance,
            vol_compliance,
            mesh,
        };
        let ghost before = body@;
        body.init(ar);
        proof {
            assert(before.particles.inv_mass =~= body@.blank().particles.inv_mass);
            assert(before.rest_vol =~= body@.blank().rest_vol);
            assert(before.edge_lens =~= body@.blank().edge_lens);
            assert(before == body@.blank());
        }
        body
    }

    /// The surface triangles of the mesh, for a renderer.
    pub fn surface_tri_ids(&self) -> (r: Vec<usize>)
        ensures
            r@ == self.mesh.tet_surface_tri_ids@,
    {
        self.mesh.tet_surface_tri_ids.clone()
    }

    /// Divides the frame into `num_substeps` substeps: the substep `dt` is
    /// the frame period over their number, and `inv_dt` its reciprocal.
    pub fn set_solver_substeps<A: Arithmetic>(&mut self, ar: &A, num_substeps: usize)
        ensures
            final(self)@ == (SoftBodyView {
                num_substeps,
                dt: final(self).dt,
                inv_dt: final(self).inv_dt,
                ..old(self)@
            }),
            is_substep_time(ar, num_substeps, final(self).dt, final(self).inv_dt),
    {
        self.num_substeps = num_substeps;
        self.dt = ar.quotient(Scalar { bits: TIME_STEP_BITS }, ar.from_count(num_substeps));
        self.inv_dt = ar.quotient(Scalar { bits: ONE_BITS }, self.dt);
    }

    /// Takes the rest volumes, the inverse masses and the rest lengths from
    /// the positions: each tetrahedron adds its share to the inverse mass of
    /// each of its corners. A particle that is no corner keeps the inverse
    /// mass it had.
    fn init<A: Arithmetic>(&mut self, ar: &A)
        requires
            old(self)@.wf(),
        ensures
            final(self)@ == (SoftBodyView {
                particles: ParticlesView {
                    inv_mass: final(self)@.particles.inv_mass,
                    ..old(self)@.particles
                },
                rest_vol: final(self)@.rest_vol,
                edge_lens: final(self)@.edge_lens,
                ..old(self)@
            }),
            final(self)@.wf(),
            final(self)@.keeps_mass_off_tets(old(self)@),
            old(self)@.initialised(ar, final(self)@),
    {
        let ghost mut chain: Seq<Seq<Scalar>> = seq![self.particles.inv_mass@];
        let mut t: usize = 0;
        while t < self.num_tets
            invariant
                t <= self.num_tets,
                self@ == (SoftBodyView {
                    particles: ParticlesView {
                        inv_mass: self@.particles.inv_mass,
                        ..old(self)@.particles
                    },
                    rest_vol: self@.rest_vol,
                    ..old(self)@
                }),
                self@.wf(),
                chain.len() == t + 1,
                chain[0] == old(self).particles.inv_mass@,
                chain[t as int] == self.particles.inv_mass@,
                forall|k: int|
                    0 <= k < t ==> old(self)@.is_volume(ar, k, #[trigger] self.rest_vol[k]),
                forall|k: int|
                    0 <= k < t ==> is_mass_step(
                        ar,
                        self.tet_ids[k],
                        self.rest_vol[k],
                        #[trigger] chain[k],
                        chain[k + 1],
                    ),
                forall|i: int|
                    0 <= i < self.num_particles && !is_corner(self.tet_ids@, t as int, i)
                        ==> #[trigger] self.particles.inv_mass[i] == old(self).particles.inv_mass[i],
            decreases self.num_tets - t,
        {
            let vol = self.get_tet_volume(ar, t);
            self.rest_vol.set(t, vol);
            let zero = Scalar { bits: ZERO_BITS };
            let share = if vol.gt(zero) {
                ar.quotient(Scalar { bits: ONE_BITS }, ar.quotient(vol, Scalar { bits: FOUR_BITS }))
            } else {
                zero
            };
            let tet = self.tet_ids[t];
            let ghost start = self.particles.inv_mass@;
            let ghost vols = self.rest_vol@;
            let ghost mut steps: Seq<Seq<Scalar>> = seq![self.particles.inv_mass@];
            proof {
                assert(is_share(ar, vol, share));
                assert(old(self)@.is_volume(ar, t as int, vol));
                assert(forall|k: int|
                    0 <= k < t ==> old(self)@.is_volume(ar, k, #[trigger] vols[k]));
                assert(forall|k: int|
                    0 <= k < t ==> is_mass_step(
                        ar,
                        old(self).tet_ids[k],
                        vols[k],
                        #[trigger] chain[k],
                        chain[k + 1],
                    ));
            }
            let mut m: usize = 0;
            while m < 4
                invariant
                    m <= 4,
                    t < self.num_tets,
                    tet == self.tet_ids[t as int],
                    self.rest_vol@ == vols,
                    self@ == (SoftBodyView {
                        particles: ParticlesView {
                            inv_mass: self@.particles.inv_mass,
                            ..old(self)@.particles
                        },
                        rest_vol: self@.rest_vol,
                        ..old(self)@
                    }),
                    self@.wf(),
                    steps.len() == m + 1,
                    steps[0] == start,
                    steps[m as int] == self.particles.inv_mass@,
                    forall|k: int|
                        0 <= k < m ==> is_sum(
                            ar,
                            (#[trigger] steps[k])[tet[k] as int],
                            share,
                            steps[k + 1][tet[k] as int],
                        ) && steps[k + 1] == steps[k].update(
                            tet[k] as int,
                            steps[k + 1][tet[k] as int],
                        ),
                    forall|i: int|
                        0 <= i < self.num_particles && !is_corner(self.tet_ids@, t + 1, i)
                            ==> #[trigger] self.particles.inv_mass[i] == old(self).particles.inv_mass[i],
                decreases 4 - m,
            {
                let id = tet[m];
                assert(self.tet_ids@[t as int][m as int] == id);
                let w = ar.sum(self.particles.inv_mass[id], share);
                self.particles.inv_mass.set(id, w);
                proof {
                    steps = steps.push(self.particles.inv_mass@);
                }
                m = m + 1;
            }
            proof {
                assert(is_mass_chain(ar, tet, share, steps, start, self.particles.inv_mass@));
                assert(is_mass_step(ar, tet, vol, start, self.particles.inv_mass@));
                assert(vols[t as int] == vol);
                chain = chain.push(self.particles.inv_mass@);
            }
            t = t + 1;
        }
        let ghost weighed = self@;
        let mut e: usize = 0;
        while e < self.edge_lens.len()
            invariant
                e <= self.edge_lens.len(),
                self.edge_ids.len() == 2 * self.edge_lens.len(),
                self@ == (SoftBodyView {
                    particles: ParticlesView {
                        inv_mass: self@.particles.inv_mass,
                        ..old(self)@.particles
                    },
                    rest_vol: self@.rest_vol,
                    edge_lens: self@.edge_lens,
                    ..old(self)@
                }),
                self@ == (SoftBodyView { edge_lens: self@.edge_lens, ..weighed }),
                self@.wf(),
                self@.keeps_mass_off_tets(old(self)@),
                forall|k: int|
                    0 <= k < e ==> is_distance(
                        ar,
                        old(self).particles.pos[old(self).edge_ids[2 * k] as int],
                        old(self).particles.pos[old(self).edge_ids[2 * k + 1] as int],
                        #[trigger] self.edge_lens[k],
                    ),
            decreases self.edge_lens.len() - e,
        {
            let id0 = self.edge_ids[2 * e];
            let id1 = self.edge_ids[2 * e + 1];
            let len = ar.distance(self.particles.pos[id0], self.particles.pos[id1]);
            self.edge_lens.set(e, len);
            e = e + 1;
        }
        proof {
            reveal(SoftBodyView::is_mass_sweep);
            assert(old(self)@.is_mass_sweep(ar, chain, self@));
        }
    }

    /// The signed volume of tetrahedron `t` with corners `p0` to `p3`:
    /// `((p1 - p0) × (p2 - p0)) · (p3 - p0) / 6`.
    fn get_tet_volume<A: Arithmetic>(&self, ar: &A, t: usize) -> (vol: Scalar)
        requires
            self@.wf(),
            t < self.num_tets,
        ensures
            is_tet_volume(
                ar,
                self.particles.pos[self.tet_ids[t as int][0] as int],
                self.particles.pos[self.tet_ids[t as int][1] as int],
                self.particles.pos[self.tet_ids[t as int][2] as int],
                self.particles.pos[self.tet_ids[t as int][3] as int],
                vol,
            ),
    {
        let tet = self.tet_ids[t];
        let p0 = self.particles.pos[tet[0]];
        let a = ar.vec_difference(self.particles.pos[tet[1]], p0);
        let b = ar.vec_difference(self.particles.pos[tet[2]], p0);
        let c = ar.vec_difference(self.particles.pos[tet[3]], p0);
        ar.quotient(ar.dot(ar.cross(a, b), c), Scalar { bits: SIX_BITS })
    }
    /// Advances the body by one frame: `pre_solve`, `solve` and
    /// `post_solve`, once for each of the `num_substeps` substeps, one after
    /// the other. Only positions, previous positions and velocities change,
    /// and those of a kinematic particle do not.
    pub fn simulate<A: Arithmetic>(&mut self, ar: &A)
        requires
            old(self)@.wf(),
        ensures
            final(self)@.after_substeps(ar, old(self)@, old(self).num_substeps as nat),
            final(self)@.stepped(old(self)@),
            final(self)@.wf(),
    {
        let mut n: usize = 0;
        proof {
            assert(is_substep_chain(ar, seq![self@], self@, self@, 0));
        }
        while n < self.num_substeps
            invariant
                n <= self.num_substeps,
                self.num_substeps == old(self).num_substeps,
                self@.after_substeps(ar, old(self)@, n as nat),
                self@.stepped(old(self)@),
                self@.wf(),
            decreases self.num_substeps - n,
        {
            let ghost mid = self@;
            self.pre_solve(ar);
            let ghost s1 = self@;
            self.solve(ar);
            let ghost s2 = self@;
            self.post_solve(ar);
            proof {
                assert(mid.pre_solved(ar, s1) && s1.solved(ar, s2) && s2.velocities_recovered(
                    ar,
                    self@,
                ));
                assert(self@.substepped(ar, mid));
                lemma_one_more_substep(ar, old(self)@, mid, self@, n as nat);
            }
            n = n + 1;
        }
    }

    /// The first step of a substep. Each particle that is not kinematic
    /// gains `gravity * dt` of velocity, its previous position becomes its
    /// position, and the position moves on by `vel * dt`. One that would
    /// come below the ground goes back to where it was and is put at height
    /// zero exactly. Kinematic particles are passed over. Afterwards no
    /// particle that can move is below the ground.
    pub fn pre_solve<A: Arithmetic>(&mut self, ar: &A)
        requires
            old(self)@.wf(),
        ensures
            old(self)@.pre_solved(ar, final(self)@),
            final(self)@.stepped(old(self)@),
            final(self)@.wf(),
            final(self)@.particles.remembers(old(self)@.particles),
            final(self)@.above_ground(),
    {
        let mut i: usize = 0;
        while i < self.num_particles
            invariant
                i <= self.num_particles,
                self@.differs_in_particles(old(self)@),
                self@.particles.differs_in_motion(old(self)@.particles),
                self@.wf(),
                forall|k: int|
                    0 <= k < self.num_particles && (i <= k || old(self)@.particles.is_kinematic(k))
                        ==> #[trigger] self.particles.pos[k] == old(self).particles.pos[k],
                forall|k: int|
                    0 <= k < self.num_particles && (i <= k || old(self)@.particles.is_kinematic(k))
                        ==> #[trigger] self.particles.vel[k] == old(self).particles.vel[k],
                forall|k: int|
                    0 <= k < self.num_particles ==> #[trigger] self.particles.prev[k] == if i <= k
                        || old(self)@.particles.is_kinematic(k) {
                        old(self).particles.prev[k]
                    } else {
                        old(self).particles.pos[k]
                    },
                forall|k: int|
                    0 <= k < i && !old(self)@.particles.is_kinematic(k) ==> !(
                    #[trigger] self.particles.pos[k]).y.spec_lt(Scalar::zero()),
                forall|k: int|
                    0 <= k < i && !old(self)@.particles.is_kinematic(k) ==> is_pre_solved(
                        ar,
                        old(self).dt,
                        old(self).particles.pos[k],
                        old(self).particles.vel[k],
                        self.particles.pos[k],
                        #[trigger] self.particles.vel[k],
                    ),
            decreases self.num_particles - i,
        {
            if !self.particles.inv_mass[i].is_zero() {
                let zero = Scalar { bits: ZERO_BITS };
                let gravity = Vec3 { x: zero, y: Scalar { bits: GRAVITY_Y_BITS }, z: zero };
                let v = ar.vec_sum(self.particles.vel[i], ar.scaled(gravity, self.dt));
                let p = self.particles.pos[i];
                let q = ar.vec_sum(p, ar.scaled(v, self.dt));
                let r = if q.y.lt(zero) {
                    p.with_y(zero)
                } else {
                    q
                };
                proof {
                    assert(gravity == crate::particles::gravity());
                    assert(is_accelerated(ar, self.particles.vel[i as int], self.dt, v));
                    assert(is_advanced(ar, p, v, self.dt, q));
                    assert(is_pre_solved(ar, self.dt, p, self.particles.vel[i as int], r, v));
                }
                self.particles.vel.set(i, v);
                self.particles.prev.set(i, p);
                self.particles.pos.set(i, r);
            }
            i = i + 1;
        }
        proof {
            reveal(SoftBodyView::pre_solved);
        }
    }

    /// The edges, then the volumes. A particle moves only where it can
    /// move and is an end of an edge or a corner of a tetrahedron.
    pub fn solve<A: Arithmetic>(&mut self, ar: &A)
        requires
            old(self)@.wf(),
        ensures
            old(self)@.solved(ar, final(self)@),
            final(self)@.repositioned(old(self)@),
            final(self)@.keeps_pos_off_mesh(old(self)@),
            final(self)@.wf(),
    {
        self.solve_edges(ar);
        let ghost mid = self@;
        self.solve_volumes(ar);
        proof {
            assert(old(self)@.edges_solved(ar, mid) && mid.volumes_solved(ar, self@));
        }
    }

    /// The last step of a substep: the velocities are recovered from the
    /// displacement.
    pub fn post_solve<A: Arithmetic>(&mut self, ar: &A)
        requires
            old(self)@.wf(),
        ensures
            old(self)@.velocities_recovered(ar, final(self)@),
            final(self)@.differs_in_particles(old(self)@),
            final(self)@.particles.differs_in_vel(old(self)@.particles),
            final(self)@.particles.keeps_kinematic_vel(old(self)@.particles),
            final(self)@.wf(),
            forall|i: int|
                0 <= i < old(self).num_particles && !old(self)@.particles.is_kinematic(i)
                    ==> is_velocity(
                    ar,
                    old(self).particles.pos[i],
                    old(self).particles.prev[i],
                    old(self).inv_dt,
                    #[trigger] final(self).particles.vel[i],
                ),
    {
        self.particles.recover_velocities(ar, self.inv_dt);
        proof {
            reveal(SoftBodyView::velocities_recovered);
        }
    }

    /// One sweep over the edges, in the order of the mesh, each seeing what
    /// the ones before it did: `project_distance` with the edge compliance
    /// times `inv_dt` squared. Kinematic particles stay where they are, and
    /// so do particles that no edge ends in.
    pub fn solve_edges<A: Arithmetic>(&mut self, ar: &A)
        requires
            old(self)@.wf(),
        ensures
            old(self)@.edges_solved(ar, final(self)@),
            final(self)@.repositioned(old(self)@),
            final(self)@.keeps_pos_off_edges(old(self)@),
            final(self)@.wf(),
    {
        let alpha = ar.product(ar.product(self.edge_compliance, self.inv_dt), self.inv_dt);
        let ghost mut chain: Seq<ParticlesView> = seq![self@.particles];
        let mut e: usize = 0;
        while e < self.edge_lens.len()
            invariant
                e <= self.edge_lens.len(),
                self.edge_ids.len() == 2 * self.edge_lens.len(),
                self@.repositioned(old(self)@),
                self@.wf(),
                chain.len() == e + 1,
                chain[0] == old(self)@.particles,
                chain[e as int] == self@.particles,
                forall|k: int|
                    0 <= k < e ==> (#[trigger] chain[k]).distance_projected(
                        ar,
                        old(self).edge_ids[2 * k] as int,
                        old(self).edge_ids[2 * k + 1] as int,
                        old(self).edge_lens[k],
                        alpha,
                        chain[k + 1],
                    ),
                forall|i: int|
                    0 <= i < self.num_particles && !is_endpoint(self.edge_ids@, 2 * e, i)
                        ==> #[trigger] self.particles.pos[i] == old(self).particles.pos[i],
            decreases self.edge_lens.len() - e,
        {
            let id0 = self.edge_ids[2 * e];
            let id1 = self.edge_ids[2 * e + 1];
            let rest_len = self.edge_lens[e];
            self.particles.project_distance(ar, id0, id1, rest_len, alpha);
            proof {
                chain = chain.push(self@.particles);
            }
            e = e + 1;
        }
        proof {
            reveal(SoftBodyView::is_edge_sweep);
            assert(is_alpha(ar, old(self)@.edge_compliance, old(self)@.inv_dt, alpha));
            assert(old(self)@.is_edge_sweep(ar, alpha, chain, self@));
        }
    }

    /// One sweep over the tetrahedra, in the order of the mesh, each seeing
    /// what the ones before it did: `project_volume` with the volume
    /// compliance times `inv_dt` squared. Kinematic particles stay where
    /// they are, and so do particles that are no corner of a tetrahedron.
    pub fn solve_volumes<A: Arithmetic>(&mut self, ar: &A)
        requires
            old(self)@.wf(),
        ensures
            old(self)@.volumes_solved(ar, final(self)@),
            final(self)@.repositioned(old(self)@),
            final(self)@.keeps_pos_off_tets(old(self)@),
            final(self)@.wf(),
    {
        let alpha = ar.product(ar.product(self.vol_compliance, self.inv_dt), self.inv_dt);
        let ghost mut chain: Seq<SoftBodyView> = seq![self@];
        let mut t: usize = 0;
        while t < self.num_tets
            invariant
                t <= self.num_tets,
                self@.repositioned(old(self)@),
                self@.wf(),
                chain.len() == t + 1,
                chain[0] == old(self)@,
                chain[t as int] == self@,
                forall|k: int|
                    0 <= k < t ==> (#[trigger] chain[k]).volume_projected(ar, k, alpha, chain[k + 1]),
                forall|i: int|
                    0 <= i < self.num_particles && !is_corner(self.tet_ids@, t as int, i)
                        ==> #[trigger] self.particles.pos[i] == old(self).particles.pos[i],
            decreases self.num_tets - t,
        {
            self.project_volume(ar, t, alpha);
            proof {
                chain = chain.push(self@);
            }
            t = t + 1;
        }
        proof {
            reveal(SoftBodyView::is_volume_sweep);
            assert(is_alpha(ar, old(self)@.vol_compliance, old(self)@.inv_dt, alpha));
            assert(old(self)@.is_volume_sweep(ar, alpha, chain, self@));
        }
    }

    /// One projection of the volume constraint of tetrahedron `t`, with
    /// compliance term `alpha`. With `g_j` the gradient by corner `j`, `w`
    /// the sum of `inv_mass * |g_j|²` over the corners, and `s = -(volume -
    /// rest volume) / (w + alpha)`, corner `j` moves by `g_j * s * inv_mass`.
    /// The tetrahedron is passed over where `w` is zero. A kinematic corner,
    /// whose share is nothing, is read and not written, and no particle
    /// moves that is not a corner.
    pub fn project_volume<A: Arithmetic>(&mut self, ar: &A, t: usize, alpha: Scalar)
        requires
            old(self)@.wf(),
            t < old(self).num_tets,
        ensures
            old(self)@.volume_projected(ar, t as int, alpha, final(self)@),
            final(self)@.repositioned(old(self)@),
            final(self)@.wf(),
            forall|i: int|
                0 <= i < old(self).num_particles && (forall|m: int|
                    0 <= m < 4 ==> old(self).tet_ids[t as int][m] != i) ==> #[trigger] final(self).particles.pos[i]
                    == old(self).particles.pos[i],
    {
        let tet = self.tet_ids[t];
        let mut w = Scalar { bits: ZERO_BITS };
        let mut grads: Vec<Vec3> = Vec::new();
        let ghost mut weights: Seq<Scalar> = seq![Scalar::zero()];
        let mut j: usize = 0;
        while j < 4
            invariant
                j <= 4,
                grads.len() == j,
                weights.len() == j + 1,
                weights[0] == Scalar::zero(),
                weights[j as int] == w,
                self@ == old(self)@,
                self@.wf(),
                t < self.num_tets,
                tet == self.tet_ids[t as int],
                forall|k: int|
                    0 <= k < j ==> self@.is_gradient(ar, t as int, k, #[trigger] grads[k])
                        && is_weighed(
                        ar,
                        weights[k],
                        self.particles.inv_mass[tet[k] as int],
                        grads[k],
                        weights[k + 1],
                    ),
            decreases 4 - j,
        {
            let g = self.volume_gradient(ar, t, j);
            grads.push(g);
            let heavier = ar.sum(
                w,
                ar.product(self.particles.inv_mass[tet[j]], ar.length_squared(g)),
            );
            proof {
                assert(is_weighed(ar, w, self.particles.inv_mass[tet[j as int] as int], g, heavier));
                weights = weights.push(heavier);
            }
            w = heavier;
            j = j + 1;
        }
        proof {
            assert(self@.is_weighing(ar, t as int, grads@, weights));
        }
        if w.is_zero() {
            return ;
        }
        let vol = self.get_tet_volume(ar, t);
        let c = ar.difference(vol, self.rest_vol[t]);
        let s = ar.quotient(c.neg(), ar.sum(w, alpha));
        let ghost mut chain: Seq<ParticlesView> = seq![self@.particles];
        let mut m: usize = 0;
        while m < 4
            invariant
                m <= 4,
                grads.len() == 4,
                t < self.num_tets,
                tet == self.tet_ids[t as int],
                self@.repositioned(old(self)@),
                self@.wf(),
                chain.len() == m + 1,
                chain[0] == old(self)@.particles,
                chain[m as int] == self@.particles,
                forall|k: int|
                    0 <= k < m ==> (#[trigger] chain[k]).moved_along(
                        ar,
                        tet[k] as int,
                        grads[k],
                        s,
                        chain[k + 1],
                    ),
                forall|i: int|
                    0 <= i < self.num_particles && (forall|n: int|
                        0 <= n < 4 ==> old(self).tet_ids[t as int][n] != i)
                        ==> #[trigger] self.particles.pos[i] == old(self).particles.pos[i],
            decreases 4 - m,
        {
            self.particles.push(ar, tet[m], grads[m], s);
            proof {
                chain = chain.push(self@.particles);
            }
            m = m + 1;
        }
        proof {
            assert(old(self)@.is_volume(ar, t as int, vol));
            assert(is_step(ar, c, w, alpha, s));
            assert(old(self)@.is_corner_chain(ar, t as int, grads@, s, chain, self@));
        }
    }

    /// The gradient of the volume of tetrahedron `t` by its corner `j`: the
    /// area vector of the opposite face over six, `((b - a) × (c - a)) / 6`
    /// for the corners `a`, `b`, `c` of `opposite_face(j)`.
    fn volume_gradient<A: Arithmetic>(&self, ar: &A, t: usize, j: usize) -> (g: Vec3)
        requires
            self@.wf(),
            t < self.num_tets,
            j < 4,
        ensures
            is_face_gradient(
                ar,
                self.particles.pos[self.tet_ids[t as int][opposite_face(j as int).0] as int],
                self.particles.pos[self.tet_ids[t as int][opposite_face(j as int).1] as int],
                self.particles.pos[self.tet_ids[t as int][opposite_face(j as int).2] as int],
                g,
            ),
    {
        let tet = self.tet_ids[t];
        let face = face_opposite(j);
        let a = self.particles.pos[tet[face.0]];
        let u = ar.vec_difference(self.particles.pos[tet[face.1]], a);
        let v = ar.vec_difference(self.particles.pos[tet[face.2]], a);
        ar.divided(ar.cross(u, v), Scalar { bits: SIX_BITS })
    }

    /// Presses the body flat: every particle is put at height one half.
    pub fn squash(&mut self)
        requires
            old(self)@.wf(),
        ensures
            final(self)@.differs_in_particles(old(self)@),
            final(self)@.particles.differs_in_pos(old(self)@.particles),
            final(self)@.wf(),
            forall|i: int|
                0 <= i < old(self).num_particles ==> #[trigger] final(self).particles.pos[i]
                    == old(self).particles.pos[i].spec_with_y(Scalar { bits: HALF_BITS }),
    {
        let mut i: usize = 0;
        while i < self.num_particles
            invariant
                i <= self.num_particles,
                self@.differs_in_particles(old(self)@),
                self@.particles.differs_in_pos(old(self)@.particles),
                self@.wf(),
                forall|k: int|
                    0 <= k < self.num_particles ==> #[trigger] self.particles.pos[k] == if k < i {
                        old(self).particles.pos[k].spec_with_y(Scalar { bits: HALF_BITS })
                    } else {
                        old(self).particles.pos[k]
                    },
            decreases self.num_particles - i,
        {
            let p = self.particles.pos[i];
            self.particles.pos.set(i, p.with_y(Scalar { bits: HALF_BITS }));
            i = i + 1;
        }
    }

    /// Moves the body by `displacement`: it is added to the position and to
    /// the previous position of every particle, so that no velocity changes.
    pub fn translate<A: Arithmetic>(&mut self, ar: &A, displacement: Vec3)
        requires
            old(self)@.wf(),
        ensures
            final(self)@.differs_in_particles(old(self)@),
            final(self)@.particles == (ParticlesView {
                pos: final(self)@.particles.pos,
                prev: final(self)@.particles.prev,
                ..old(self)@.particles
            }),
            final(self)@.wf(),
            forall|i: int|
                0 <= i < old(self).num_particles ==> is_vec_sum(
                    ar,
                    old(self).particles.pos[i],
                    displacement,
                    #[trigger] final(self).particles.pos[i],
                ),
            forall|i: int|
                0 <= i < old(self).num_particles ==> is_vec_sum(
                    ar,
                    old(self).particles.prev[i],
                    displacement,
                    #[trigger] final(self).particles.prev[i],
                ),
    {
        let mut i: usize = 0;
        while i < self.num_particles
            invariant
                i <= self.num_particles,
                self@.differs_in_particles(old(self)@),
                self@.particles == (ParticlesView {
                    pos: self@.particles.pos,
                    prev: self@.particles.prev,
                    ..old(self)@.particles
                }),
                self@.wf(),
                forall|k: int|
                    i <= k < self.num_particles ==> #[trigger] self.particles.pos[k] == old(self).particles.pos[k],
                forall|k: int|
                    i <= k < self.num_particles ==> #[trigger] self.particles.prev[k] == old(self).particles.prev[k],
                forall|k: int|
                    0 <= k < i ==> is_vec_sum(
                        ar,
                        old(self).particles.pos[k],
                        displacement,
                        #[trigger] self.particles.pos[k],
                    ),
                forall|k: int|
                    0 <= k < i ==> is_vec_sum(
                        ar,
                        old(self).particles.prev[k],
                        displacement,
                        #[trigger] self.particles.prev[k],
                    ),
            decreases self.num_particles - i,
        {
            let p = ar.vec_sum(self.particles.pos[i], displacement);
            self.particles.pos.set(i, p);
            let q = ar.vec_sum(self.particles.prev[i], displacement);
            self.particles.prev.set(i, q);
            i = i + 1;
        }
    }

    /// Picks up the particle nearest to `p` and places it there.
    pub fn start_grab<A: Arithmetic>(&mut self, ar: &A, p: Vec3)
        requires
            old(self)@.wf(),
        ensures
            is_pick(ar, p, old(self).particles.pos@, final(self).particles.grab_id),
            final(self)@.differs_in_particles(old(self)@),
            final(self)@.particles == old(self)@.particles.grabbed(final(self).particles.grab_id, p),
            final(self)@.wf(),
    {
        self.particles.start_grab(ar, p);
    }

    /// Places the dragged particle at `p`. Without one, nothing changes.
    pub fn move_grabbed(&mut self, p: Vec3)
        requires
            old(self)@.wf(),
        ensures
            final(self)@.differs_in_particles(old(self)@),
            final(self)@.particles == old(self)@.particles.moved(p),
            final(self)@.wf(),
    {
        self.particles.move_grabbed(p);
    }

    /// Lets the dragged particle go with velocity `v`. Without one, nothing
    /// changes.
    pub fn end_grab(&mut self, v: Vec3)
        requires
            old(self)@.wf(),
        ensures
            final(self)@.differs_in_particles(old(self)@),
            final(self)@.particles == old(self)@.particles.released(v),
            final(self)@.wf(),
    {
        self.particles.end_grab(v);
    }
}

} // verus!
