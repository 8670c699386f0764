use vstd::prelude::*;
use crate::adjacency::{is_answer, Adjacency, BroadPhase};
use crate::arith::{
    is_count, is_difference, is_length, is_length_squared, is_product, is_quotient, is_scaled,
    is_sqrt, is_sum, is_vec_difference, is_vec_sum, Arithmetic, UnitSampler,
};
use crate::constraints::{
    build_catalog, endpoints_within, has_rest_lengths, is_catalog, Constraint, ConstraintKind,
    NUM_CONSTRAINTS,
};
use crate::lattice::{
    is_lattice_edges, is_lattice_triangles, lattice_edges, lattice_triangles, particle_id,
    NUM_PARTICLES, NUM_X, NUM_Y,
};
use crate::particles::{
    filled, is_accelerated, is_advanced, is_alpha, is_pick, is_substep_time, is_velocity,
    Particles, ParticlesView, GRAVITY_Y_BITS, TIME_STEP_BITS,
};
use crate::scalar::{Scalar, HALF_BITS, MINUS_HALF_BITS, MINUS_ONE_BITS, ONE_BITS, ZERO_BITS};
use crate::vec3::Vec3;

verus! {

/// Substeps of a frame, until `set_solver_substeps` says otherwise.
pub const DEFAULT_NUM_SOLVER_SUBSTEPS: usize = 10;

/// Compliance of the bending constraints at construction: one.
pub const DEFAULT_BENDING_COMPLIANCE_BITS: u32 = 0x3F80_0000;

/// Compliance of the stretch constraints at construction: zero.
pub const DEFAULT_STRETCH_COMPLIANCE_BITS: u32 = 0;

/// Compliance of the shear constraints at construction: a ten-thousandth.
pub const DEFAULT_SHEAR_COMPLIANCE_BITS: u32 = 0x38D1_B717;

/// The distance between neighbours of the lattice, a hundredth.
pub const SPACING_BITS: u32 = 0x3C23_D70A;

/// The thickness of the sheet, a hundredth.
pub const THICKNESS_BITS: u32 = 0x3C23_D70A;

/// Half the thickness: the height at which the ground holds a particle.
pub const HALF_THICKNESS_BITS: u32 = 0x3BA3_D70A;

/// The thickness times itself, rounded once.
pub const THICKNESS_SQUARED_BITS: u32 = 0x38D1_B717;

/// A fifth of the thickness, rounded once: the farthest that a particle may
/// travel in one substep. The velocity limit is this over `dt`.
pub const MAX_TRAVEL_BITS: u32 = 0x3B03_126F;

/// The first coordinate of column zero: minus half the width of the sheet.
pub const ORIGIN_X_BITS: u32 = 0xBE19_9999;

/// The second coordinate of row zero, a fifth.
pub const ORIGIN_Y_BITS: u32 = 0x3E4C_CCCD;

/// What a unit sample is multiplied by to give the jitter of a coordinate:
/// minus twice the square of a thousandth of the spacing.
pub const JITTER_SCALE_BITS: u32 = 0xAF5B_E701;

/// Friction between colliding particles: zero.
pub const FRICTION_BITS: u32 = 0;

/// A sheet of cloth: a lattice of particles held together by distance
/// constraints, which falls, hangs, lies on the ground and folds on itself.
pub struct Cloth {
    pub num_particles: usize,
    pub num_substeps: usize,
    pub dt: Scalar,
    pub inv_dt: Scalar,
    pub max_vel: Scalar,
    pub edge_ids: Vec<[usize; 2]>,
    pub tri_ids: Vec<[usize; 3]>,
    pub particles: Particles,
    /// The positions that the last reset gave.
    pub rest_pos: Vec<Vec3>,
    pub handle_collisions: bool,
    pub num_constraints: usize,
    pub constraints: Vec<Constraint>,
    pub stretch_compliance: Scalar,
    pub shear_compliance: Scalar,
    pub bending_compliance: Scalar,
}

/// The sheet as mathematical values.
pub struct ClothView {
    pub num_particles: usize,
    pub num_substeps: usize,
    pub dt: Scalar,
    pub inv_dt: Scalar,
    pub max_vel: Scalar,
    pub edge_ids: Seq<[usize; 2]>,
    pub tri_ids: Seq<[usize; 3]>,
    pub particles: ParticlesView,
    pub rest_pos: Seq<Vec3>,
    pub handle_collisions: bool,
    pub num_constraints: usize,
    pub constraints: Seq<Constraint>,
    pub stretch_compliance: Scalar,
    pub shear_compliance: Scalar,
    pub bending_compliance: Scalar,
}

impl View for Cloth {
    type V = ClothView;

    open spec fn view(&self) -> ClothView {
        ClothView {
            num_particles: self.num_particles,
            num_substeps: self.num_substeps,
            dt: self.dt,
            inv_dt: self.inv_dt,
            max_vel: self.max_vel,
            edge_ids: self.edge_ids@,
            tri_ids: self.tri_ids@,
            particles: self.particles@,
            rest_pos: self.rest_pos@,
            handle_collisions: self.handle_collisions,
            num_constraints: self.num_constraints,
            constraints: self.constraints@,
            stretch_compliance: self.stretch_compliance,
            shear_compliance: self.shear_compliance,
            bending_compliance: self.bending_compliance,
        }
    }
}

/// The particle at `(i, j)` is one of the two that an attached sheet hangs
/// by: a corner of the last row.
pub open spec fn is_top_corner(i: int, j: int) -> bool {
    j == NUM_Y - 1 && (i == 0 || i == NUM_X - 1)
}

/// The inverse mass that a reset gives the particle at `(i, j)`: zero for
/// the corners that an attached sheet hangs by, one for every other.
pub open spec fn reset_inv_mass(attach: bool, i: int, j: int) -> Scalar {
    if attach && is_top_corner(i, j) {
        Scalar::zero()
    } else {
        Scalar::one()
    }
}

/// What is done about two particles of the sheet that may touch.
#[derive(Clone, Copy, Debug, PartialEq, Eq, Structural)]
pub enum Response {
    /// They are left where they are.
    Leave,
    /// They are brought to the thickness of the sheet apart.
    ToThickness,
    /// They are brought to the square root of their distance at rest apart.
    ToRestRoot,
}

/// What is done about two particles whose distance squared is `dist_sq` and
/// whose distance at rest is `rest_dist`. They are left alone where they
/// are farther apart than the thickness, where they coincide, and where
/// `dist_sq` is above `rest_dist`: the squared distance is held against the
/// distance at rest, not against its square. Else they are brought apart:
/// to the square root of `rest_dist` where that is below the thickness
/// squared, to the thickness where it is not.
pub open spec fn response_to(dist_sq: Scalar, rest_dist: Scalar) -> Response {
    let thickness_sq = Scalar { bits: THICKNESS_SQUARED_BITS };
    if dist_sq.spec_gt(thickness_sq) || dist_sq.spec_is_zero() || dist_sq.spec_gt(rest_dist) {
        Response::Leave
    } else if rest_dist.spec_lt(thickness_sq) {
        Response::ToRestRoot
    } else {
        Response::ToThickness
    }
}

/// Decides what is done about two particles that may touch.
pub fn collision_response(dist_sq: Scalar, rest_dist: Scalar) -> (r: Response)
    ensures
        r == response_to(dist_sq, rest_dist),
{
    let thickness_sq = Scalar { bits: THICKNESS_SQUARED_BITS };
    if dist_sq.gt(thickness_sq) || dist_sq.is_zero() || dist_sq.gt(rest_dist) {
        Response::Leave
    } else if rest_dist.lt(thickness_sq) {
        Response::ToRestRoot
    } else {
        Response::ToThickness
    }
}

/// `v` is what brings two particles to the distance `min_dist`, half of it
/// for each: with `dist` the square root of `dist_sq`, it is `apart *
/// ((min_dist - dist) / dist)`.
pub open spec fn is_correction<A: Arithmetic>(
    ar: &A,
    apart: Vec3,
    dist_sq: Scalar,
    min_dist: Scalar,
    v: Vec3,
) -> bool {
    exists|dist: Scalar, e: Scalar, q: Scalar|
        is_sqrt(ar, dist_sq, dist) && is_difference(ar, min_dist, dist, e) && is_quotient(
            ar,
            e,
            dist,
            q,
        ) && is_scaled(ar, apart, q, v)
}

/// `rest` is the distance of the two rest positions `a` and `b`.
pub open spec fn is_rest_distance<A: Arithmetic>(ar: &A, a: Vec3, b: Vec3, rest: Scalar) -> bool {
    exists|d: Vec3| is_vec_difference(ar, a, b, d) && is_length(ar, d, rest)
}

/// `toward0` and `toward1` are what takes the displacements of particles
/// `id0` and `id1` in this substep to their mean: with `moved = pos - prev`
/// for each and `mean = (moved0 + moved1) * 0.5`, they are `mean - moved0`
/// and `mean - moved1`.
pub open spec fn is_blend<A: Arithmetic>(
    ar: &A,
    particles: ParticlesView,
    id0: int,
    id1: int,
    toward0: Vec3,
    toward1: Vec3,
) -> bool {
    exists|moved0: Vec3, moved1: Vec3, both: Vec3, mean: Vec3|
        is_vec_difference(ar, particles.pos[id0], particles.prev[id0], moved0)
            && is_vec_difference(ar, particles.pos[id1], particles.prev[id1], moved1)
            && is_vec_sum(ar, moved0, moved1, both) && is_scaled(
            ar,
            both,
            Scalar { bits: HALF_BITS },
            mean,
        ) && is_vec_difference(ar, mean, moved0, toward0) && is_vec_difference(
            ar,
            mean,
            moved1,
            toward1,
        )
}

/// Particle `k` can move and is in a candidate pair of `adjacency` with a
/// particle that can move: one of the two is among the neighbours of the
/// other.
pub open spec fn in_contact(adjacency: &Adjacency, particles: ParticlesView, k: int) -> bool {
    &&& !particles.is_kinematic(k)
    &&& exists|i: int|
        0 <= i < particles.pos.len() && !(#[trigger] particles.is_kinematic(i)) && (
        adjacency.pairs(i, k) || adjacency.pairs(k, i))
}

/// `w` is an inverse mass that a particle of the sheet can have: zero or one.
pub open spec fn is_unit_mass(w: Scalar) -> bool {
    w == Scalar::zero() || w == Scalar::one()
}

/// `c` is the coordinate of column or row `k` of the lattice that begins at
/// `origin`: `origin + k * SPACING`.
pub open spec fn is_lattice_coordinate<A: Arithmetic>(
    ar: &A,
    origin: Scalar,
    k: usize,
    c: Scalar,
) -> bool {
    exists|n: Scalar, d: Scalar|
        is_count(ar, k, n) && is_product(ar, n, Scalar { bits: SPACING_BITS }, d) && is_sum(
            ar,
            origin,
            d,
            c,
        )
}

/// `p` is the place of the particle `(i, j)` on the lattice, which stands
/// upright in the plane of no depth.
pub open spec fn is_lattice_point<A: Arithmetic>(ar: &A, i: usize, j: usize, p: Vec3) -> bool {
    &&& is_lattice_coordinate(ar, Scalar { bits: ORIGIN_X_BITS }, i, p.x)
    &&& is_lattice_coordinate(ar, Scalar { bits: ORIGIN_Y_BITS }, j, p.y)
    &&& p.z == Scalar::zero()
}

/// `r` is the coordinate `c` moved by the jitter scale times some sample.
pub open spec fn is_jittered<A: Arithmetic>(ar: &A, c: Scalar, r: Scalar) -> bool {
    exists|u: Scalar, d: Scalar|
        is_product(ar, Scalar { bits: JITTER_SCALE_BITS }, u, d) && is_sum(ar, c, d, r)
}

/// `q` is where a reset puts the particle `(i, j)`: its place on the
/// lattice with each coordinate jittered.
pub open spec fn is_seeded<A: Arithmetic>(ar: &A, i: usize, j: usize, q: Vec3) -> bool {
    exists|p: Vec3| #[trigger]
        is_lattice_point(ar, i, j, p) && is_jittered(ar, p.x, q.x) && is_jittered(ar, p.y, q.y)
            && is_jittered(ar, p.z, q.z)
}

/// `reach` is the farthest that a particle travels in a frame of `n`
/// substeps: `max_vel * dt * n`.
pub open spec fn is_reach<A: Arithmetic>(
    ar: &A,
    max_vel: Scalar,
    dt: Scalar,
    n: usize,
    reach: Scalar,
) -> bool {
    exists|step: Scalar, count: Scalar|
        is_product(ar, max_vel, dt, step) && is_count(ar, n, count) && is_product(
            ar,
            step,
            count,
            reach,
        )
}

/// `v` is the velocity `u` held to the limit `max_vel`: where `u` is longer
/// than `max_vel`, it is `u * (max_vel / length)`, and `u` where it is not.
pub open spec fn is_limited<A: Arithmetic>(ar: &A, u: Vec3, max_vel: Scalar, v: Vec3) -> bool {
    exists|speed: Scalar|
        is_length(ar, u, speed) && if speed.spec_gt(max_vel) {
            exists|q: Scalar| is_quotient(ar, max_vel, speed, q) && is_scaled(ar, u, q, v)
        } else {
            v == u
        }
}

/// `new_vel` and `new_pos` are what integration makes of a particle at
/// `pos` with velocity `vel`: the velocity gains `gravity * dt` and is held
/// to `max_vel`, and the position moves on by the new velocity times `dt`.
pub open spec fn is_integrated<A: Arithmetic>(
    ar: &A,
    dt: Scalar,
    max_vel: Scalar,
    pos: Vec3,
    vel: Vec3,
    new_pos: Vec3,
    new_vel: Vec3,
) -> bool {
    exists|u: Vec3| #[trigger]
        is_accelerated(ar, vel, dt, u) && is_limited(ar, u, max_vel, new_vel) && is_advanced(
            ar,
            pos,
            new_vel,
            dt,
            new_pos,
        )
}

/// `r` is where the ground holds a particle that has sunk from `prev` to
/// `pos`: at `pos + (pos - prev) * -1`, with the height replaced by half the
/// thickness.
pub open spec fn is_held<A: Arithmetic>(ar: &A, pos: Vec3, prev: Vec3, r: Vec3) -> bool {
    exists|moved: Vec3, back: Vec3, b: Vec3|
        is_vec_difference(ar, pos, prev, moved) && is_scaled(
            ar,
            moved,
            Scalar { bits: MINUS_ONE_BITS },
            back,
        ) && is_vec_sum(ar, pos, back, b) && r == b.spec_with_y(Scalar { bits: HALF_THICKNESS_BITS })
}

/// `chain` holds the states of `n` substeps from `first` to `last`: both
/// ends and the states in between, each a substep from the one before it.
pub open spec fn is_substep_chain<A: Arithmetic>(
    ar: &A,
    adjacency: &Adjacency,
    chain: Seq<ClothView>,
    first: ClothView,
    last: ClothView,
    n: nat,
) -> bool {
    &&& chain.len() == n + 1
    &&& chain[0] == first
    &&& chain[n as int] == last
    &&& forall|k: int| 0 <= k < n ==> chain[k + 1].substepped(ar, adjacency, #[trigger] chain[k])
}

impl ClothView {
    /// The sheet has the particles of the lattice, and every particle has
    /// each attribute.
    pub open spec fn sized(self) -> bool {
        &&& self.num_particles == NUM_PARTICLES
        &&& self.particles.wf()
        &&& self.particles.pos.len() == NUM_PARTICLES
        &&& self.rest_pos.len() == NUM_PARTICLES
    }

    /// Every inverse mass, the saved one too, is zero or one: no particle of
    /// the sheet has a negative mass.
    pub open spec fn has_unit_masses(self) -> bool {
        &&& forall|i: int|
            0 <= i < self.particles.inv_mass.len() ==> is_unit_mass(
                #[trigger] self.particles.inv_mass[i],
            )
        &&& is_unit_mass(self.particles.grab_inv_mass)
    }

    /// The sheet has the particles, the topology and the constraints of the
    /// lattice, and its inverse masses are zero or one.
    pub open spec fn wf(self) -> bool {
        &&& self.sized()
        &&& self.has_unit_masses()
        &&& is_lattice_edges(self.edge_ids)
        &&& is_lattice_triangles(self.tri_ids)
        &&& self.num_constraints == NUM_CONSTRAINTS
        &&& is_catalog(self.constraints)
        &&& endpoints_within(self.constraints, NUM_PARTICLES as int)
    }

    /// The compliance of a constraint of kind `kind`.
    pub open spec fn compliance(self, kind: ConstraintKind) -> Scalar {
        match kind {
            ConstraintKind::Stretch => self.stretch_compliance,
            ConstraintKind::Shear => self.shear_compliance,
            ConstraintKind::Bending => self.bending_compliance,
        }
    }

    /// `self` and `before` differ in their particles at most: topology,
    /// constraints, rest positions, substeps and settings are the same.
    pub open spec fn differs_in_particles(self, before: ClothView) -> bool {
        self == (ClothView { particles: self.particles, ..before })
    }

    /// `self` is what a solver step can make of `before`: the two differ in
    /// the positions of particles that are not kinematic at most.
    pub open spec fn repositioned(self, before: ClothView) -> bool {
        &&& self.differs_in_particles(before)
        &&& self.particles.differs_in_pos(before.particles)
        &&& self.particles.pos.len() == before.particles.pos.len()
        &&& self.particles.keeps_kinematic_pos(before.particles)
    }

    /// `self` is what whole substeps can make of `before`: the two differ
    /// in the positions, previous positions and velocities of particles that
    /// are not kinematic at most.
    pub open spec fn stepped(self, before: ClothView) -> bool {
        &&& self.differs_in_particles(before)
        &&& self.particles.differs_in_motion(before.particles)
        &&& self.particles.pos.len() == before.particles.pos.len()
        &&& self.particles.keeps_kinematic_pos(before.particles)
        &&& self.particles.keeps_kinematic_prev(before.particles)
        &&& self.particles.keeps_kinematic_vel(before.particles)
    }

    /// `after` is `self` integrated: every particle that can move has the
    /// velocity and the position that `is_integrated` gives it, and the
    /// position it had as its previous one; the others are as they were.
    #[verifier::opaque]
    pub open spec fn integrated<A: Arithmetic>(self, ar: &A, after: ClothView) -> bool {
        &&& after.stepped(self)
        &&& after.particles.remembers(self.particles)
        &&& forall|i: int|
            0 <= i < self.particles.pos.len() && !self.particles.is_kinematic(i) ==> is_integrated(
                ar,
                self.dt,
                self.max_vel,
                self.particles.pos[i],
                self.particles.vel[i],
                after.particles.pos[i],
                #[trigger] after.particles.vel[i],
            )
    }

    /// `after` is `self` held above the ground: every particle that can
    /// move and lies lower than half the thickness is where `is_held` puts
    /// it, and every other where it was.
    #[verifier::opaque]
    pub open spec fn grounded<A: Arithmetic>(self, ar: &A, after: ClothView) -> bool {
        &&& after.repositioned(self)
        &&& forall|i: int|
            0 <= i < self.particles.pos.len() ==> if !self.particles.is_kinematic(i)
                && self.particles.pos[i].y.spec_lt(Scalar { bits: HALF_THICKNESS_BITS }) {
                is_held(
                    ar,
                    self.particles.pos[i],
                    self.particles.prev[i],
                    #[trigger] after.particles.pos[i],
                )
            } else {
                after.particles.pos[i] == self.particles.pos[i]
            }
    }

    /// `after` is `self` after the collisions of the sheet with itself,
    /// where they are handled, and `self` where they are not.
    pub open spec fn collided<A: Arithmetic>(
        self,
        ar: &A,
        adjacency: &Adjacency,
        after: ClothView,
    ) -> bool {
        if self.handle_collisions {
            self.collisions_solved(ar, adjacency, after)
        } else {
            after == self
        }
    }

    /// `after` is `self` with the velocities recovered: every particle that
    /// can move has the velocity `(pos - prev) * inv_dt`.
    #[verifier::opaque]
    pub open spec fn velocities_recovered<A: Arithmetic>(self, ar: &A, after: ClothView) -> bool {
        &&& after.differs_in_particles(self)
        &&& after.particles.differs_in_vel(self.particles)
        &&& after.particles.keeps_kinematic_vel(self.particles)
        &&& forall|i: int|
            0 <= i < self.particles.pos.len() && !self.particles.is_kinematic(i) ==> is_velocity(
                ar,
                self.particles.pos[i],
                self.particles.prev[i],
                self.inv_dt,
                #[trigger] after.particles.vel[i],
            )
    }

    /// `self` is what one substep makes of `before`: it is integrated, held
    /// above the ground, its constraints and then its collisions are solved,
    /// and its velocities are recovered. Every particle that can move then
    /// has the position it started from as its previous one, and every other
    /// is as it was.
    pub open spec fn substepped<A: Arithmetic>(
        self,
        ar: &A,
        adjacency: &Adjacency,
        before: ClothView,
    ) -> bool {
        &&& self.stepped(before)
        &&& self.particles.remembers(before.particles)
        &&& exists|s1: ClothView, s2: ClothView, s3: ClothView, s4: ClothView|
            #[trigger] before.integrated(ar, s1) && #[trigger] s1.grounded(ar, s2)
                && #[trigger] s2.constraints_solved(ar, s3) && #[trigger] s3.collided(
                ar,
                adjacency,
                s4,
            ) && s4.velocities_recovered(ar, self)
    }

    /// `self` is what `n` substeps make of `before`, one after the other:
    /// there are the states in between, each a substep from the one before
    /// it.
    pub open spec fn after_substeps<A: Arithmetic>(
        self,
        ar: &A,
        adjacency: &Adjacency,
        before: ClothView,
        n: nat,
    ) -> bool {
        exists|chain: Seq<ClothView>| #[trigger]
            is_substep_chain(ar, adjacency, chain, before, self, n)
    }

    /// `b` is `a` with constraint `k` of the table projected once, with the
    /// compliance of its kind times `inv_dt` squared for its compliance
    /// term.
    pub open spec fn is_constraint_step<A: Arithmetic>(
        self,
        ar: &A,
        k: int,
        a: ParticlesView,
        b: ParticlesView,
    ) -> bool {
        exists|alpha: Scalar| #[trigger]
            is_alpha(ar, self.compliance(self.constraints[k].kind), self.inv_dt, alpha)
                && a.distance_projected(
                ar,
                self.constraints[k].ids.0 as int,
                self.constraints[k].ids.1 as int,
                self.constraints[k].rest_len,
                alpha,
                b,
            )
    }

    /// `chain` holds the particles as the constraints of the table are
    /// projected one after the other, slot after slot, from `self` to
    /// `after`.
    #[verifier::opaque]
    pub open spec fn is_constraint_sweep<A: Arithmetic>(
        self,
        ar: &A,
        chain: Seq<ParticlesView>,
        after: ClothView,
    ) -> bool {
        &&& chain.len() == self.constraints.len() + 1
        &&& chain[0] == self.particles
        &&& chain[self.constraints.len() as int] == after.particles
        &&& after.differs_in_particles(self)
        &&& forall|k: int|
            0 <= k < self.constraints.len() ==> self.is_constraint_step(
                ar,
                k,
                #[trigger] chain[k],
                chain[k + 1],
            )
    }

    /// `after` is `self` after one sweep over the constraint table.
    pub open spec fn constraints_solved<A: Arithmetic>(self, ar: &A, after: ClothView) -> bool {
        exists|chain: Seq<ParticlesView>| #[trigger] self.is_constraint_sweep(ar, chain, after)
    }

    /// `after` is `self` with the particles `id0` and `id1`, which are
    /// `apart` from each other, brought to the distance `min_dist`: `id0`
    /// is shifted by minus half the correction and `id1` by half of it, and
    /// then each by the friction times what takes its displacement to the
    /// mean of the two.
    pub open spec fn pushed_apart<A: Arithmetic>(
        self,
        ar: &A,
        id0: int,
        id1: int,
        apart: Vec3,
        dist_sq: Scalar,
        min_dist: Scalar,
        after: ClothView,
    ) -> bool {
        exists|
            v: Vec3,
            s1: ParticlesView,
            s2: ParticlesView,
            toward0: Vec3,
            toward1: Vec3,
            s3: ParticlesView,
        |
            #[trigger] is_correction(ar, apart, dist_sq, min_dist, v)
                && #[trigger] self.particles.shifted(ar, id0, v, Scalar { bits: MINUS_HALF_BITS }, s1)
                && #[trigger] s1.shifted(ar, id1, v, Scalar { bits: HALF_BITS }, s2)
                && #[trigger] is_blend(ar, s2, id0, id1, toward0, toward1) && #[trigger] s2.shifted(
                ar,
                id0,
                toward0,
                Scalar { bits: FRICTION_BITS },
                s3,
            ) && s3.shifted(ar, id1, toward1, Scalar { bits: FRICTION_BITS }, after.particles)
                && after.differs_in_particles(self)
    }

    /// `after` is `self` with the particles `id0` and `id1` separated:
    /// with `apart = pos[id1] - pos[id0]`, `dist_sq` its length squared and
    /// `rest` the distance of the two at rest, `response_to(dist_sq, rest)`
    /// says whether they are left alone, pushed apart to the thickness, or
    /// pushed apart to the square root of `rest`.
    pub open spec fn separated<A: Arithmetic>(
        self,
        ar: &A,
        id0: int,
        id1: int,
        after: ClothView,
    ) -> bool {
        exists|apart: Vec3, dist_sq: Scalar|
            is_vec_difference(ar, self.particles.pos[id1], self.particles.pos[id0], apart)
                && is_length_squared(ar, apart, dist_sq) && exists|rest: Scalar| #[trigger]
                is_rest_distance(ar, self.rest_pos[id0], self.rest_pos[id1], rest)
                    && match response_to(dist_sq, rest) {
                Response::Leave => after == self,
                Response::ToThickness => self.pushed_apart(
                    ar,
                    id0,
                    id1,
                    apart,
                    dist_sq,
                    Scalar { bits: THICKNESS_BITS },
                    after,
                ),
                Response::ToRestRoot => exists|root: Scalar|
                    is_sqrt(ar, rest, root) && #[trigger] self.pushed_apart(
                        ar,
                        id0,
                        id1,
                        apart,
                        dist_sq,
                        root,
                        after,
                    ),
            }
    }

    /// `b` is `self` with particle `i` separated from the neighbour at place
    /// `j` of the tables; a kinematic neighbour is passed over.
    pub open spec fn is_pair_step<A: Arithmetic>(
        self,
        ar: &A,
        adjacency: &Adjacency,
        i: int,
        j: int,
        b: ClothView,
    ) -> bool {
        if self.particles.is_kinematic(adjacency.adj_ids[j] as int) {
            b == self
        } else {
            self.separated(ar, i, adjacency.adj_ids[j] as int, b)
        }
    }

    /// `chain` holds the sheet as particle `i` is separated from its
    /// candidate neighbours one after the other, in the order of its row of
    /// the tables, from `self` to `after`.
    #[verifier::opaque]
    pub open spec fn is_row_sweep<A: Arithmetic>(
        self,
        ar: &A,
        adjacency: &Adjacency,
        i: int,
        chain: Seq<ClothView>,
        after: ClothView,
    ) -> bool {
        let first = adjacency.first_adj_id[i] as int;
        let last = adjacency.first_adj_id[i + 1] as int;
        let n = if first <= last {
            last - first
        } else {
            0
        };
        &&& chain.len() == n + 1
        &&& chain[0] == self
        &&& chain[n] == after
        &&& forall|m: int|
            0 <= m < n ==> (#[trigger] chain[m]).is_pair_step(ar, adjacency, i, first + m, chain[m + 1])
    }

    /// `after` is `self` with particle `i` separated from its candidate
    /// neighbours; a kinematic particle is passed over.
    pub open spec fn row_solved<A: Arithmetic>(
        self,
        ar: &A,
        adjacency: &Adjacency,
        i: int,
        after: ClothView,
    ) -> bool {
        if self.particles.is_kinematic(i) {
            after == self
        } else {
            exists|chain: Seq<ClothView>| #[trigger] self.is_row_sweep(ar, adjacency, i, chain, after)
        }
    }

    /// `chain` holds the sheet as the rows of the tables are solved one
    /// after the other, particle after particle, from `self` to `after`.
    #[verifier::opaque]
    pub open spec fn is_collision_sweep<A: Arithmetic>(
        self,
        ar: &A,
        adjacency: &Adjacency,
        chain: Seq<ClothView>,
        after: ClothView,
    ) -> bool {
        &&& chain.len() == NUM_PARTICLES + 1
        &&& chain[0] == self
        &&& chain[NUM_PARTICLES as int] == after
        &&& forall|i: int|
            0 <= i < NUM_PARTICLES ==> (#[trigger] chain[i]).row_solved(ar, adjacency, i, chain[i + 1])
    }

    /// `after` is `self` after the collisions of the sheet with itself were
    /// resolved along the tables.
    pub open spec fn collisions_solved<A: Arithmetic>(
        self,
        ar: &A,
        adjacency: &Adjacency,
        after: ClothView,
    ) -> bool {
        exists|chain: Seq<ClothView>| #[trigger] self.is_collision_sweep(ar, adjacency, chain, after)
    }

    /// The substep time, its reciprocal and the velocity limit are those
    /// of a frame of `num_substeps` substeps: `dt` is the frame period over
    /// their number, `inv_dt` one over `dt`, and `max_vel` the farthest
    /// travel of a substep over `dt`.
    pub open spec fn is_timed<A: Arithmetic>(self, ar: &A) -> bool {
        &&& is_substep_time(ar, self.num_substeps, self.dt, self.inv_dt)
        &&& is_quotient(ar, Scalar { bits: MAX_TRAVEL_BITS }, self.dt, self.max_vel)
    }

    /// `reach` is the farthest that a particle of the sheet travels in a
    /// frame.
    pub open spec fn is_frame_reach<A: Arithmetic>(self, ar: &A, reach: Scalar) -> bool {
        is_reach(ar, self.max_vel, self.dt, self.num_substeps, reach)
    }

    /// `self` is what a reset can make of `before`: the two differ in
    /// positions, velocities, inverse masses and rest positions at most.
    pub open spec fn reseeded(self, before: ClothView) -> bool {
        self == (ClothView {
            particles: ParticlesView {
                pos: self.particles.pos,
                vel: self.particles.vel,
                inv_mass: self.particles.inv_mass,
                ..before.particles
            },
            rest_pos: self.rest_pos,
            ..before
        })
    }

    /// No particle that can move lies lower than half the thickness.
    pub open spec fn above_ground(self) -> bool {
        forall|i: int|
            0 <= i < self.particles.pos.len() && !self.particles.is_kinematic(i) ==> !(
            #[trigger] self.particles.pos[i]).y.spec_lt(Scalar { bits: HALF_THICKNESS_BITS })
    }

    /// The inverse masses are those that a reset gives.
    pub open spec fn has_reset_masses(self, attach: bool) -> bool {
        forall|i: int, j: int|
            0 <= i < NUM_X && 0 <= j < NUM_Y ==> self.particles.inv_mass[#[trigger] particle_id(i, j)]
                == reset_inv_mass(attach, i, j)
    }

    /// Every particle is where a reset puts it.
    pub open spec fn is_seeded<A: Arithmetic>(self, ar: &A) -> bool {
        forall|i: usize, j: usize|
            i < NUM_X && j < NUM_Y ==> is_seeded(
                ar,
                i,
                j,
                self.particles.pos[#[trigger] particle_id(i as int, j as int)],
            )
    }

    /// Every velocity is zero.
    pub open spec fn at_rest(self) -> bool {
        forall|k: int|
            0 <= k < self.particles.vel.len() ==> #[trigger] self.particles.vel[k] == Vec3::zero()
    }
}

/// A substep after `n` substeps makes `n + 1` substeps, and no substep
/// leaves the state as it is.
pub proof fn lemma_one_more_substep<A: Arithmetic>(
    ar: &A,
    adjacency: &Adjacency,
    before: ClothView,
    mid: ClothView,
    after: ClothView,
    n: nat,
)
    requires
        mid.after_substeps(ar, adjacency, before, n),
        after.substepped(ar, adjacency, mid),
    ensures
        after.after_substeps(ar, adjacency, before, n + 1),
        before.after_substeps(ar, adjacency, before, 0),
{
    let chain = choose|chain: Seq<ClothView>| #[trigger]
        is_substep_chain(ar, adjacency, chain, before, mid, n);
    let longer = chain.push(after);
    assert forall|k: int| 0 <= k < n + 1 implies longer[k + 1].substepped(
        ar,
        adjacency,
        #[trigger] longer[k],
    ) by {
        if k < n {
            assert(longer[k + 1] == chain[k + 1]);
            assert(longer[k] == chain[k]);
        }
    }
    assert(is_substep_chain(ar, adjacency, longer, before, after, n + 1));
    assert(is_substep_chain(ar, adjacency, seq![before], before, before, 0));
}

/// After at least one substep, the state is a substep from what the
/// substeps before the last made, and after none it is what it was.
pub proof fn lemma_substeps_remember<A: Arithmetic>(
    ar: &A,
    adjacency: &Adjacency,
    before: ClothView,
    after: ClothView,
    n: nat,
)
    requires
        after.after_substeps(ar, adjacency, before, n),
    ensures
        n == 0 ==> after == before,
        n > 0 ==> exists|mid: ClothView|
            (#[trigger] mid.after_substeps(ar, adjacency, before, (n - 1) as nat))
                && after.substepped(ar, adjacency, mid),
{
    let chain = choose|chain: Seq<ClothView>| #[trigger]
        is_substep_chain(ar, adjacency, chain, before, after, n);
    if n > 0 {
        let mid = chain[n - 1];
        let shorter = chain.take(n as int);
        assert forall|k: int| 0 <= k < n - 1 implies shorter[k + 1].substepped(
            ar,
            adjacency,
            #[trigger] shorter[k],
        ) by {
            assert(shorter[k + 1] == chain[k + 1]);
            assert(shorter[k] == chain[k]);
        }
        assert(is_substep_chain(ar, adjacency, shorter, before, mid, (n - 1) as nat));
        assert(chain[(n - 1) + 1].substepped(ar, adjacency, chain[n - 1]));
        assert(mid.after_substeps(ar, adjacency, before, (n - 1) as nat) && after.substepped(
            ar,
            adjacency,
            mid,
        ));
    }
}

/// No particle of a well-formed sheet has a negative inverse mass, or one
/// that is not a number; and it is kinematic exactly where its inverse mass
/// is the positive zero.
pub proof fn lemma_masses_are_not_negative(c: ClothView, i: int)
    requires
        c.wf(),
        0 <= i < NUM_PARTICLES,
    ensures
        !c.particles.inv_mass[i].spec_lt(Scalar::zero()),
        !c.particles.inv_mass[i].spec_is_nan(),
        c.particles.is_kinematic(i) <==> c.particles.inv_mass[i] == Scalar::zero(),
{
    assert(is_unit_mass(c.particles.inv_mass[i]));
}

impl Cloth {
    /// A sheet on the lattice, upright, at rest and free: what `reset`
    /// gives without attachment, with the constraints of the lattice, each
    /// at the rest length that the two endpoints are apart. The frame has
    /// the default number of substeps, the compliances have their defaults,
    /// and collisions of the sheet with itself are handled.
    pub fn new<A: Arithmetic, R: UnitSampler>(ar: &A, rng: &mut R) -> (c: Cloth)
        ensures
            c@.wf(),
            c.num_substeps == DEFAULT_NUM_SOLVER_SUBSTEPS,
            c@.is_timed(ar),
            c@.is_seeded(ar),
            has_rest_lengths(ar, c.constraints@, c.rest_pos@, 0, NUM_CONSTRAINTS as int),
            c.handle_collisions,
            c.stretch_compliance == (Scalar { bits: DEFAULT_STRETCH_COMPLIANCE_BITS }),
            c.shear_compliance == (Scalar { bits: DEFAULT_SHEAR_COMPLIANCE_BITS }),
            c.bending_compliance == (Scalar { bits: DEFAULT_BENDING_COMPLIANCE_BITS }),
            c.particles.grab_id is None,
            c.particles.grab_inv_mass == Scalar::zero(),
            c.rest_pos@ == c.particles.pos@,
            c@.at_rest(),
            c@.has_reset_masses(false),
            forall|k: int| 0 <= k < NUM_PARTICLES ==> #[trigger] c.particles.prev[k] == Vec3::zero(),
    {
        let zero = Scalar { bits: ZERO_BITS };
        let mut cloth = Cloth {
            num_particles: NUM_PARTICLES,
            num_substeps: DEFAULT_NUM_SOLVER_SUBSTEPS,
            dt: zero,
            inv_dt: zero,
            max_vel: zero,
            edge_ids: lattice_edges(),
            tri_ids: lattice_triangles(),
            particles: Particles::new(NUM_PARTICLES),
            rest_pos: filled(Vec3::zeros(), NUM_PARTICLES),
            handle_collisions: true,
            num_constraints: 0,
            constraints: Vec::new(),
            stretch_compliance: Scalar { bits: DEFAULT_STRETCH_COMPLIANCE_BITS },
            shear_compliance: Scalar { bits: DEFAULT_SHEAR_COMPLIANCE_BITS },
            bending_compliance: Scalar { bits: DEFAULT_BENDING_COMPLIANCE_BITS },
        };
        cloth.set_solver_substeps(ar, DEFAULT_NUM_SOLVER_SUBSTEPS);
        cloth.init(ar, rng);
        cloth
    }

    /// Puts the sheet back on the lattice, upright and at rest: the
    /// particle at `(i, j)` goes to `(ORIGIN_X + i * SPACING, ORIGIN_Y + j *
    /// SPACING, 0)`, and each coordinate then moves by the jitter scale
    /// times a sample of `rng`, drawn particle after particle in the order x,
    /// y, z. Every inverse mass is one, but that the two top corners have
    /// zero where `attach` is set. The rest positions are the new positions
    /// and every velocity is zero. A particle that is being dragged stays so.
    pub fn reset<A: Arithmetic, R: UnitSampler>(&mut self, ar: &A, rng: &mut R, attach: bool)
        requires
            old(self)@.sized(),
        ensures
            final(self)@.reseeded(old(self)@),
            final(self)@.sized(),
            is_unit_mass(old(self).particles.grab_inv_mass) ==> final(self)@.has_unit_masses(),
            old(self)@.wf() ==> final(self)@.wf(),
            final(self).rest_pos@ == final(self).particles.pos@,
            final(self)@.at_rest(),
            final(self)@.has_reset_masses(attach),
            final(self)@.is_seeded(ar),
    {
        let mut i: usize = 0;
        while i < NUM_X
            invariant
                i <= NUM_X,
                self@.reseeded(old(self)@),
                self.particles.vel@ == old(self).particles.vel@,
                self.rest_pos@ == old(self).rest_pos@,
                self@.sized(),
                forall|a: usize, b: usize|
                    a < i && b < NUM_Y ==> is_lattice_point(
                        ar,
                        a,
                        b,
                        self.particles.pos[#[trigger] particle_id(a as int, b as int)],
                    ),
                forall|a: int, b: int|
                    0 <= a < i && 0 <= b < NUM_Y ==> self.particles.inv_mass[#[trigger] particle_id(a, b)]
                        == reset_inv_mass(attach, a, b),
            decreases NUM_X - i,
        {
            let mut j: usize = 0;
            while j < NUM_Y
                invariant
                    i < NUM_X,
                    j <= NUM_Y,
                    self@.reseeded(old(self)@),
                    self.particles.vel@ == old(self).particles.vel@,
                    self.rest_pos@ == old(self).rest_pos@,
                    self@.sized(),
                    forall|a: usize, b: usize|
                        a < NUM_X && b < NUM_Y && (a < i || (a == i && b < j)) ==> is_lattice_point(
                            ar,
                            a,
                            b,
                            self.particles.pos[#[trigger] particle_id(a as int, b as int)],
                        ),
                    forall|a: int, b: int|
                        0 <= a < NUM_X && 0 <= b < NUM_Y && (a < i || (a == i && b < j))
                            ==> self.particles.inv_mass[#[trigger] particle_id(a, b)]
                            == reset_inv_mass(attach, a, b),
                decreases NUM_Y - j,
            {
                let origin_x = Scalar { bits: ORIGIN_X_BITS };
                let origin_y = Scalar { bits: ORIGIN_Y_BITS };
                let spacing = Scalar { bits: SPACING_BITS };
                let zero = Scalar { bits: ZERO_BITS };
                let one = Scalar { bits: ONE_BITS };
                let id: usize = i * NUM_Y + j;
                let x = ar.sum(origin_x, ar.product(ar.from_count(i), spacing));
                let y = ar.sum(origin_y, ar.product(ar.from_count(j), spacing));
                self.particles.pos.set(id, Vec3 { x, y, z: zero });
                let pinned = attach && j == NUM_Y - 1 && (i == 0 || i == NUM_X - 1);
                self.particles.inv_mass.set(id, if pinned { zero } else { one });
                j = j + 1;
            }
            i = i + 1;
        }
        let mut k: usize = 0;
        while k < NUM_PARTICLES
            invariant
                k <= NUM_PARTICLES,
                self@.reseeded(old(self)@),
                self.particles.vel@ == old(self).particles.vel@,
                self.rest_pos@ == old(self).rest_pos@,
                self@.sized(),
                self@.has_reset_masses(attach),
                forall|a: usize, b: usize|
                    a < NUM_X && b < NUM_Y ==> if particle_id(a as int, b as int) < k {
                        is_seeded(
                            ar,
                            a,
                            b,
                            self.particles.pos[#[trigger] particle_id(a as int, b as int)],
                        )
                    } else {
                        is_lattice_point(ar, a, b, self.particles.pos[particle_id(a as int, b as int)])
                    },
            decreases NUM_PARTICLES - k,
        {
            let scale = Scalar { bits: JITTER_SCALE_BITS };
            let p = self.particles.pos[k];
            let x = ar.sum(p.x, ar.product(scale, rng.next_unit()));
            let y = ar.sum(p.y, ar.product(scale, rng.next_unit()));
            let z = ar.sum(p.z, ar.product(scale, rng.next_unit()));
            proof {
                assert(is_jittered(ar, p.x, x));
                assert(is_jittered(ar, p.y, y));
                assert(is_jittered(ar, p.z, z));
            }
            self.particles.pos.set(k, Vec3 { x, y, z });
            k = k + 1;
        }
        self.rest_pos = self.particles.pos.clone();
        self.particles.vel = filled(Vec3::zeros(), NUM_PARTICLES);
        proof {
            assert forall|n: int| 0 <= n < NUM_PARTICLES implies is_unit_mass(
                #[trigger] self.particles.inv_mass[n],
            ) by {
                assert(particle_id(n / 200, n % 200) == n);
            }
        }
    }

    /// Divides the frame into `num_substeps` substeps: the substep `dt` is
    /// the frame period over their number, `inv_dt` its reciprocal, and the
    /// velocity limit the farthest travel of a substep over `dt`.
    pub fn set_solver_substeps<A: Arithmetic>(&mut self, ar: &A, num_substeps: usize)
        ensures
            final(self)@ == (ClothView {
                num_substeps,
                dt: final(self).dt,
                inv_dt: final(self).inv_dt,
                max_vel: final(self).max_vel,
                ..old(self)@
            }),
            final(self)@.is_timed(ar),
    {
        self.num_substeps = num_substeps;
        self.dt = ar.quotient(Scalar { bits: TIME_STEP_BITS }, ar.from_count(num_substeps));
        self.inv_dt = ar.quotient(Scalar { bits: ONE_BITS }, self.dt);
        self.max_vel = ar.quotient(Scalar { bits: MAX_TRAVEL_BITS }, self.dt);
    }

    /// Resets the sheet without attachment and fills the constraint table
    /// from the positions that this gave.
    fn init<A: Arithmetic, R: UnitSampler>(&mut self, ar: &A, rng: &mut R)
        requires
            old(self)@.sized(),
            is_unit_mass(old(self).particles.grab_inv_mass),
            is_lattice_edges(old(self).edge_ids@),
            is_lattice_triangles(old(self).tri_ids@),
        ensures
            final(self)@.reseeded(
                ClothView {
                    constraints: final(self)@.constraints,
                    num_constraints: NUM_CONSTRAINTS,
                    ..old(self)@
                },
            ),
            final(self)@.wf(),
            final(self).rest_pos@ == final(self).particles.pos@,
            final(self)@.at_rest(),
            final(self)@.has_reset_masses(false),
            final(self)@.is_seeded(ar),
            has_rest_lengths(
                ar,
                final(self).constraints@,
                final(self).rest_pos@,
                0,
                NUM_CONSTRAINTS as int,
            ),
    {
        self.reset(ar, rng, false);
        self.constraints = build_catalog(ar, &self.particles.pos);
        self.num_constraints = NUM_CONSTRAINTS;
    }

    /// The compliance that `constraint` is projected with.
    pub fn get_compliance(&self, constraint: &Constraint) -> (r: Scalar)
        ensures
            r == self@.compliance(constraint.kind),
    {
        match constraint.kind {
            ConstraintKind::Stretch => self.stretch_compliance,
            ConstraintKind::Shear => self.shear_compliance,
            ConstraintKind::Bending => self.bending_compliance,
        }
    }

    /// Advances the sheet by one frame. Where collisions are handled, the
    /// broad phase is first rebuilt over the positions and asked for the
    /// pairs within the reach of a frame, `max_vel * dt * num_substeps`;
    /// `simulate_with` then makes the substeps of the frame with its tables.
    /// The result says whether the frame was computed: it was not, and
    /// nothing has changed, where the tables that the broad phase handed
    /// back cannot be read. Kinematic particles stay as they are in any case.
    pub fn simulate<A: Arithmetic, H: BroadPhase>(&mut self, ar: &A, hash: &mut H) -> (done: bool)
        requires
            old(self)@.wf(),
        ensures
            final(self)@.stepped(old(self)@),
            final(self)@.wf(),
            !old(self).handle_collisions ==> done,
            old(self).handle_collisions ==> exists|reach: Scalar, tables: Adjacency|
                #![trigger tables.wf(NUM_PARTICLES as int), old(self)@.is_frame_reach(ar, reach)]
                old(self)@.is_frame_reach(ar, reach) && is_answer(
                    final(hash),
                    &old(self).particles.pos,
                    reach,
                    tables,
                ) && done == tables.wf(NUM_PARTICLES as int) && (done ==> final(self)@.after_substeps(ar, &tables, old(self)@, old(self).num_substeps as nat)),
            done ==> exists|adjacency: Adjacency| #[trigger]
                final(self)@.after_substeps(
                    ar,
                    &adjacency,
                    old(self)@,
                    old(self).num_substeps as nat,
                ),
            !done ==> final(self)@ == old(self)@,
    {
        if self.handle_collisions {
            hash.create(&self.particles.pos);
            let max_dist = ar.product(
                ar.product(self.max_vel, self.dt),
                ar.from_count(self.num_substeps),
            );
            let adjacency = hash.query_all(&self.particles.pos, max_dist);
            proof {
                assert(self@.is_frame_reach(ar, max_dist));
            }
            self.simulate_with(ar, &adjacency)
        } else {
            let adjacency = Adjacency { first_adj_id: Vec::new(), adj_ids: Vec::new() };
            self.simulate_with(ar, &adjacency)
        }
    }

    /// The frame with the candidate pairs of `adjacency`. It is computed,
    /// by `advance`, exactly where collisions are not handled or the tables
    /// can be read for the particles of the sheet; else nothing changes.
    pub fn simulate_with<A: Arithmetic>(&mut self, ar: &A, adjacency: &Adjacency) -> (done: bool)
        requires
            old(self)@.wf(),
        ensures
            done == (!old(self).handle_collisions || adjacency.wf(NUM_PARTICLES as int)),
            done ==> final(self)@.after_substeps(
                ar,
                adjacency,
                old(self)@,
                old(self).num_substeps as nat,
            ),
            !done ==> final(self)@ == old(self)@,
            final(self)@.stepped(old(self)@),
            final(self)@.wf(),
    {
        if self.handle_collisions && !adjacency.is_valid(NUM_PARTICLES) {
            return false;
        }
        self.advance(ar, adjacency);
        true
    }

    /// The substeps of one frame, `num_substeps` of them one after the
    /// other, with the candidate pairs of `adjacency` for all of them. Only
    /// positions, previous positions and velocities change, and those of a
    /// kinematic particle do not.
    pub fn advance<A: Arithmetic>(&mut self, ar: &A, adjacency: &Adjacency)
        requires
            old(self)@.wf(),
            old(self).handle_collisions ==> adjacency.wf(NUM_PARTICLES as int),
        ensures
            final(self)@.after_substeps(ar, adjacency, old(self)@, old(self).num_substeps as nat),
            final(self)@.stepped(old(self)@),
            final(self)@.wf(),
    {
        let mut n: usize = 0;
        proof {
            assert(is_substep_chain(ar, adjacency, seq![self@], self@, self@, 0));
        }
        while n < self.num_substeps
            invariant
                n <= self.num_substeps,
                self.num_substeps == old(self).num_substeps,
                self.handle_collisions ==> adjacency.wf(NUM_PARTICLES as int),
                self@.after_substeps(ar, adjacency, old(self)@, n as nat),
                self@.stepped(old(self)@),
                self@.wf(),
            decreases self.num_substeps - n,
        {
            let ghost mid = self@;
            self.substep(ar, adjacency);
            proof {
                lemma_one_more_substep(ar, adjacency, old(self)@, mid, self@, n as nat);
            }
            n = n + 1;
        }
    }

    /// One substep: `integrate`, `solve_ground_collisions`,
    /// `solve_constraints`, `solve_collisions` where collisions are handled,
    /// and then the velocities are recovered from the displacement. A
    /// kinematic particle keeps its position, its velocity and its previous
    /// position; every other has the position it started from as its
    /// previous one.
    pub fn substep<A: Arithmetic>(&mut self, ar: &A, adjacency: &Adjacency)
        requires
            old(self)@.wf(),
            old(self).handle_collisions ==> adjacency.wf(NUM_PARTICLES as int),
        ensures
            final(self)@.substepped(ar, adjacency, old(self)@),
            final(self)@.stepped(old(self)@),
            final(self)@.wf(),
            final(self)@.particles.remembers(old(self)@.particles),
    {
        self.integrate(ar);
        let ghost s1 = self@;
        self.solve_ground_collisions(ar);
        let ghost s2 = self@;
        self.solve_constraints(ar);
        let ghost s3 = self@;
        if self.handle_collisions {
            self.solve_collisions(ar, adjacency);
        }
        let ghost s4 = self@;
        self.recover_velocities(ar);
        proof {
            assert(old(self)@.integrated(ar, s1) && s1.grounded(ar, s2) && s2.constraints_solved(
                ar,
                s3,
            ) && s3.collided(ar, adjacency, s4) && s4.velocities_recovered(ar, self@));
        }
    }

    /// The last step of a substep: the velocities are recovered from the
    /// displacement.
    pub fn recover_velocities<A: Arithmetic>(&mut self, ar: &A)
        requires
            old(self)@.wf(),
        ensures
            old(self)@.velocities_recovered(ar, final(self)@),
            final(self)@.differs_in_particles(old(self)@),
            final(self)@.particles.differs_in_vel(old(self)@.particles),
            final(self)@.particles.keeps_kinematic_vel(old(self)@.particles),
            final(self)@.wf(),
    {
        self.particles.recover_velocities(ar, self.inv_dt);
        proof {
            reveal(ClothView::velocities_recovered);
        }
    }

    /// The first step of a substep. Each particle that is not kinematic
    /// gains `gravity * dt` of velocity; a velocity longer than `max_vel` is
    /// scaled down to that length; the previous position becomes the
    /// position, and the position moves on by `vel * dt`. Kinematic
    /// particles are passed over.
    pub fn integrate<A: Arithmetic>(&mut self, ar: &A)
        requires
            old(self)@.wf(),
        ensures
            old(self)@.integrated(ar, final(self)@),
            final(self)@.stepped(old(self)@),
            final(self)@.wf(),
            final(self)@.particles.remembers(old(self)@.particles),
    {
        let mut i: usize = 0;
        while i < self.num_particles
            invariant
                i <= NUM_PARTICLES,
                self@.differs_in_particles(old(self)@),
                self@.particles.differs_in_motion(old(self)@.particles),
                self@.wf(),
                forall|k: int|
                    0 <= k < i && !old(self)@.particles.is_kinematic(k) ==> is_integrated(
                        ar,
                        old(self).dt,
                        old(self).max_vel,
                        old(self).particles.pos[k],
                        old(self).particles.vel[k],
                        self.particles.pos[k],
                        #[trigger] self.particles.vel[k],
                    ),
                forall|k: int|
                    0 <= k < NUM_PARTICLES && (i <= k || old(self)@.particles.is_kinematic(k))
                        ==> #[trigger] self.particles.pos[k] == old(self).particles.pos[k],
                forall|k: int|
                    0 <= k < NUM_PARTICLES && (i <= k || old(self)@.particles.is_kinematic(k))
                        ==> #[trigger] self.particles.vel[k] == old(self).particles.vel[k],
                forall|k: int|
                    0 <= k < NUM_PARTICLES ==> #[trigger] self.particles.prev[k] == if i <= k || old(self)@.particles.is_kinematic(k) {
                        old(self).particles.prev[k]
                    } else {
                        old(self).particles.pos[k]
                    },
            decreases NUM_PARTICLES - i,
        {
            if !self.particles.inv_mass[i].is_zero() {
                let zero = Scalar { bits: ZERO_BITS };
                let gravity = Vec3 { x: zero, y: Scalar { bits: GRAVITY_Y_BITS }, z: zero };
                let u = ar.vec_sum(self.particles.vel[i], ar.scaled(gravity, self.dt));
                let speed = ar.length(u);
                let v = if speed.gt(self.max_vel) {
                    ar.scaled(u, ar.quotient(self.max_vel, speed))
                } else {
                    u
                };
                let p = self.particles.pos[i];
                let q = ar.vec_sum(p, ar.scaled(v, self.dt));
                proof {
                    assert(gravity == crate::particles::gravity());
                    assert(is_accelerated(ar, self.particles.vel[i as int], self.dt, u));
                    assert(is_limited(ar, u, self.max_vel, v));
                    assert(is_advanced(ar, p, v, self.dt, q));
                    assert(is_integrated(ar, self.dt, self.max_vel, p, self.particles.vel[i as int], q, v));
                }
                self.particles.vel.set(i, v);
                self.particles.prev.set(i, p);
                self.particles.pos.set(i, q);
            }
            i = i + 1;
        }
        proof {
            reveal(ClothView::integrated);
        }
    }

    /// Holds the sheet above the ground. Each particle that is not kinematic
    /// and lies lower than half the thickness gives up the displacement of
    /// this substep, `pos += -(pos - prev)`, and is then put at exactly half
    /// the thickness; every other particle stays where it is. Afterwards no
    /// particle that can move is lower than that.
    pub fn solve_ground_collisions<A: Arithmetic>(&mut self, ar: &A)
        requires
            old(self)@.wf(),
        ensures
            old(self)@.grounded(ar, final(self)@),
            final(self)@.repositioned(old(self)@),
            final(self)@.wf(),
            final(self)@.above_ground(),
            forall|i: int|
                0 <= i < NUM_PARTICLES ==> if !old(self)@.particles.is_kinematic(i) && old(self).particles.pos[i].y.spec_lt(Scalar { bits: HALF_THICKNESS_BITS }) {
                    (#[trigger] final(self).particles.pos[i]).y == (Scalar {
                        bits: HALF_THICKNESS_BITS,
                    })
                } else {
                    final(self).particles.pos[i] == old(self).particles.pos[i]
                },
    {
        let mut i: usize = 0;
        while i < self.num_particles
            invariant
                i <= NUM_PARTICLES,
                self@.differs_in_particles(old(self)@),
                self@.particles.differs_in_pos(old(self)@.particles),
                self@.wf(),
                forall|k: int|
                    i <= k < NUM_PARTICLES ==> #[trigger] self.particles.pos[k] == old(self).particles.pos[k],
                forall|k: int|
                    0 <= k < i ==> if !old(self)@.particles.is_kinematic(k) && old(self).particles.pos[k].y.spec_lt(Scalar { bits: HALF_THICKNESS_BITS }) {
                        (#[trigger] self.particles.pos[k]).y == (Scalar {
                            bits: HALF_THICKNESS_BITS,
                        }) && is_held(
                            ar,
                            old(self).particles.pos[k],
                            old(self).particles.prev[k],
                            self.particles.pos[k],
                        )
                    } else {
                        self.particles.pos[k] == old(self).particles.pos[k]
                    },
            decreases NUM_PARTICLES - i,
        {
            let floor = Scalar { bits: HALF_THICKNESS_BITS };
            if !self.particles.inv_mass[i].is_zero() && self.particles.pos[i].y.lt(floor) {
                let p = self.particles.pos[i];
                let moved = ar.vec_difference(p, self.particles.prev[i]);
                let back = ar.vec_sum(p, ar.scaled(moved, Scalar { bits: MINUS_ONE_BITS }));
                proof {
                    assert(is_held(ar, p, self.particles.prev[i as int], back.spec_with_y(floor)));
                }
                self.particles.pos.set(i, back.with_y(floor));
            }
            i = i + 1;
        }
        proof {
            reveal(ClothView::grounded);
        }
    }

    /// One sweep over the constraint table, slot after slot, each
    /// constraint seeing what the ones before it did: `project_distance`
    /// with the compliance of its kind times `inv_dt` squared. Kinematic
    /// particles stay where they are.
    pub fn solve_constraints<A: Arithmetic>(&mut self, ar: &A)
        requires
            old(self)@.wf(),
        ensures
            old(self)@.constraints_solved(ar, final(self)@),
            final(self)@.repositioned(old(self)@),
            final(self)@.wf(),
    {
        let ghost mut chain: Seq<ParticlesView> = seq![self@.particles];
        let mut k: usize = 0;
        while k < self.constraints.len()
            invariant
                k <= self.constraints.len(),
                self@.repositioned(old(self)@),
                self@.wf(),
                chain.len() == k + 1,
                chain[0] == old(self)@.particles,
                chain[k as int] == self@.particles,
                forall|j: int|
                    0 <= j < k ==> old(self)@.is_constraint_step(ar, j, #[trigger] chain[j], chain[j + 1]),
            decreases self.constraints.len() - k,
        {
            let cons = self.constraints[k];
            let compliance = self.get_compliance(&cons);
            let alpha = ar.product(ar.product(compliance, self.inv_dt), self.inv_dt);
            self.particles.project_distance(ar, cons.ids.0, cons.ids.1, cons.rest_len, alpha);
            proof {
                assert(cons == old(self)@.constraints[k as int]);
                assert(compliance == old(self)@.compliance(cons.kind));
                assert(is_alpha(ar, compliance, old(self)@.inv_dt, alpha));
                assert(chain[k as int].distance_projected(
                    ar,
                    cons.ids.0 as int,
                    cons.ids.1 as int,
                    cons.rest_len,
                    alpha,
                    self@.particles,
                ));
                assert(old(self)@.is_constraint_step(ar, k as int, chain[k as int], self@.particles));
                chain = chain.push(self@.particles);
            }
            k = k + 1;
        }
        proof {
            reveal(ClothView::is_constraint_sweep);
            assert(old(self)@.is_constraint_sweep(ar, chain, self@));
        }
    }

    /// Resolves the collisions of the sheet with itself: each particle that
    /// is not kinematic is separated from each of its candidate neighbours
    /// that is not kinematic either, in the order of the tables. A particle
    /// that is in no such pair stays where it is.
    pub fn solve_collisions<A: Arithmetic>(&mut self, ar: &A, adjacency: &Adjacency)
        requires
            old(self)@.wf(),
            adjacency.wf(NUM_PARTICLES as int),
        ensures
            old(self)@.collisions_solved(ar, adjacency, final(self)@),
            final(self)@.repositioned(old(self)@),
            final(self)@.wf(),
            forall|k: int|
                0 <= k < NUM_PARTICLES && !in_contact(adjacency, old(self)@.particles, k)
                    ==> #[trigger] final(self).particles.pos[k] == old(self).particles.pos[k],
    {
        let ghost mut chain: Seq<ClothView> = seq![self@];
        let mut i: usize = 0;
        while i < self.num_particles
            invariant
                i <= NUM_PARTICLES,
                adjacency.wf(NUM_PARTICLES as int),
                self@.repositioned(old(self)@),
                self@.wf(),
                chain.len() == i + 1,
                chain[0] == old(self)@,
                chain[i as int] == self@,
                forall|k: int|
                    0 <= k < i ==> (#[trigger] chain[k]).row_solved(ar, adjacency, k, chain[k + 1]),
                forall|k: int|
                    0 <= k < NUM_PARTICLES && !in_contact(adjacency, old(self)@.particles, k)
                        ==> #[trigger] self.particles.pos[k] == old(self).particles.pos[k],
            decreases NUM_PARTICLES - i,
        {
            let ghost start = self@;
            if !self.particles.inv_mass[i].is_zero() {
                let first = adjacency.first_adj_id[i];
                let last = adjacency.first_adj_id[i + 1];
                let ghost mut row: Seq<ClothView> = seq![self@];
                let mut j: usize = first;
                while j < last
                    invariant
                        i < NUM_PARTICLES,
                        first == adjacency.first_adj_id[i as int],
                        last == adjacency.first_adj_id[i + 1],
                        first <= j,
                        first <= last ==> j <= last,
                        first > last ==> j == first,
                        last <= adjacency.adj_ids.len(),
                        adjacency.wf(NUM_PARTICLES as int),
                        !old(self)@.particles.is_kinematic(i as int),
                        self@.repositioned(old(self)@),
                        self@.wf(),
                        row.len() == j - first + 1,
                        row[0] == start,
                        row[j - first] == self@,
                        forall|m: int|
                            0 <= m < j - first ==> (#[trigger] row[m]).is_pair_step(
                                ar,
                                adjacency,
                                i as int,
                                first + m,
                                row[m + 1],
                            ),
                        forall|k: int|
                            0 <= k < NUM_PARTICLES && !in_contact(
                                adjacency,
                                old(self)@.particles,
                                k,
                            ) ==> #[trigger] self.particles.pos[k] == old(self).particles.pos[k],
                    decreases last - j,
                {
                    let id1 = adjacency.adj_ids[j];
                    if !self.particles.inv_mass[id1].is_zero() {
                        proof {
                            assert(adjacency.adj_ids[j as int] == id1);
                            assert(adjacency.pairs(i as int, id1 as int));
                            assert(!old(self)@.particles.is_kinematic(id1 as int));
                            assert(in_contact(adjacency, old(self)@.particles, i as int));
                            assert(in_contact(adjacency, old(self)@.particles, id1 as int));
                        }
                        self.separate(ar, i, id1);
                    }
                    proof {
                        assert(row[j - first].is_pair_step(ar, adjacency, i as int, j as int, self@));
                        row = row.push(self@);
                    }
                    j = j + 1;
                }
                proof {
                    reveal(ClothView::is_row_sweep);
                    assert(start.is_row_sweep(ar, adjacency, i as int, row, self@));
                }
            }
            proof {
                assert(start.row_solved(ar, adjacency, i as int, self@));
                chain = chain.push(self@);
            }
            i = i + 1;
        }
        proof {
            reveal(ClothView::is_collision_sweep);
            assert(old(self)@.is_collision_sweep(ar, adjacency, chain, self@));
        }
    }

    /// Pushes apart the two particles `id0` and `id1` where they are closer
    /// than the thickness and no farther apart than they were at rest: each
    /// moves half the way that is missing to the least distance, which is
    /// the thickness, or the square root of the distance at rest where that
    /// distance is below the thickness squared. The friction then blends the
    /// displacement of each towards the mean of the two. The nearness test
    /// compares the squared distance with the distance at rest, not with its
    /// square. No other particle moves.
    pub fn separate<A: Arithmetic>(&mut self, ar: &A, id0: usize, id1: usize)
        requires
            old(self)@.wf(),
            id0 < NUM_PARTICLES,
            id1 < NUM_PARTICLES,
        ensures
            old(self)@.separated(ar, id0 as int, id1 as int, final(self)@),
            final(self)@.differs_in_particles(old(self)@),
            final(self)@.particles.differs_in_pos(old(self)@.particles),
            final(self)@.wf(),
            forall|k: int|
                0 <= k < NUM_PARTICLES && k != id0 && k != id1 ==> #[trigger] final(self).particles.pos[k]
                    == old(self).particles.pos[k],
    {
        let apart = ar.vec_difference(self.particles.pos[id1], self.particles.pos[id0]);
        let dist_sq = ar.length_squared(apart);
        let rest_dist = ar.length(ar.vec_difference(self.rest_pos[id0], self.rest_pos[id1]));
        proof {
            assert(is_rest_distance(ar, self.rest_pos[id0 as int], self.rest_pos[id1 as int], rest_dist));
        }
        let min_dist = match collision_response(dist_sq, rest_dist) {
            Response::Leave => {
                return ;
            },
            Response::ToThickness => Scalar { bits: THICKNESS_BITS },
            Response::ToRestRoot => ar.sqrt(rest_dist),
        };
        let dist = ar.sqrt(dist_sq);
        let v = ar.scaled(apart, ar.quotient(ar.difference(min_dist, dist), dist));
        self.particles.shift(ar, id0, v, Scalar { bits: MINUS_HALF_BITS });
        let ghost s1 = self@.particles;
        self.particles.shift(ar, id1, v, Scalar { bits: HALF_BITS });
        let ghost s2 = self@.particles;

        let moved0 = ar.vec_difference(self.particles.pos[id0], self.particles.prev[id0]);
        let moved1 = ar.vec_difference(self.particles.pos[id1], self.particles.prev[id1]);
        let mean = ar.scaled(ar.vec_sum(moved0, moved1), Scalar { bits: HALF_BITS });
        let toward0 = ar.vec_difference(mean, moved0);
        let toward1 = ar.vec_difference(mean, moved1);
        self.particles.shift(ar, id0, toward0, Scalar { bits: FRICTION_BITS });
        let ghost s3 = self@.particles;
        self.particles.shift(ar, id1, toward1, Scalar { bits: FRICTION_BITS });
        proof {
            assert(is_correction(ar, apart, dist_sq, min_dist, v));
            assert(is_blend(ar, s2, id0 as int, id1 as int, toward0, toward1));
            assert(old(self)@.pushed_apart(
                ar,
                id0 as int,
                id1 as int,
                apart,
                dist_sq,
                min_dist,
                self@,
            ));
        }
    }

    /// Picks up the particle nearest to `p` and places it there.
    pub fn start_grab<A: Arithmetic>(&mut self, ar: &A, p: Vec3)
        requires
            old(self)@.wf(),
        ensures
            is_pick(ar, p, old(self).particles.pos@, final(self).particles.grab_id),
            final(self)@.differs_in_particles(old(self)@),
            final(self)@.particles == old(self)@.particles.grabbed(final(self).particles.grab_id, p),
            final(self)@.wf(),
    {
        self.particles.start_grab(ar, p);
    }

    /// Places the dragged particle at `p`. Without one, nothing changes.
    pub fn move_grabbed(&mut self, p: Vec3)
        requires
            old(self)@.wf(),
        ensures
            final(self)@.differs_in_particles(old(self)@),
            final(self)@.particles == old(self)@.particles.moved(p),
            final(self)@.wf(),
    {
        self.particles.move_grabbed(p);
    }

    /// Lets the dragged particle go with velocity `v`. Without one, nothing
    /// changes.
    pub fn end_grab(&mut self, v: Vec3)
        requires
            old(self)@.wf(),
        ensures
            final(self)@.differs_in_particles(old(self)@),
            final(self)@.particles == old(self)@.particles.released(v),
            final(self)@.wf(),
    {
        self.particles.end_grab(v);
    }
}

} // verus!
