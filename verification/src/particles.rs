use vstd::prelude::*;
use crate::arith::{
    is_count, is_difference, is_divided, is_length, is_length_squared, is_product, is_quotient,
    is_scaled, is_sum, is_vec_difference, is_vec_sum, Arithmetic,
};
use crate::scalar::{Scalar, MAX_BITS, ONE_BITS, ZERO_BITS};
use crate::vec3::Vec3;

verus! {

/// The frame period, a sixtieth of a second.
pub const TIME_STEP_BITS: u32 = 0x3C88_8889;

/// The vertical component of gravity, minus ten; the others are zero.
pub const GRAVITY_Y_BITS: u32 = 0xC120_0000;

/// `v` is the velocity that carries a particle from `prev` to `pos` in a
/// substep: `(pos - prev) * inv_dt`.
pub open spec fn is_velocity<A: Arithmetic>(
    ar: &A,
    pos: Vec3,
    prev: Vec3,
    inv_dt: Scalar,
    v: Vec3,
) -> bool {
    exists|d: Vec3| is_vec_difference(ar, pos, prev, d) && is_scaled(ar, d, inv_dt, v)
}

/// `r` is `p` pushed along `n` by the step `s` with the share `w`:
/// `p + n * s * w`.
pub open spec fn is_pushed<A: Arithmetic>(
    ar: &A,
    p: Vec3,
    n: Vec3,
    s: Scalar,
    w: Scalar,
    r: Vec3,
) -> bool {
    exists|a: Vec3, b: Vec3| is_scaled(ar, n, s, a) && is_scaled(ar, a, w, b) && is_vec_sum(ar, p, b, r)
}

/// `s` is the step of a constraint that is off its rest value by `c`, for
/// the weight `w` and the compliance term `alpha`: `-c / (w + alpha)`.
pub open spec fn is_step<A: Arithmetic>(ar: &A, c: Scalar, w: Scalar, alpha: Scalar, s: Scalar) -> bool {
    exists|d: Scalar| is_sum(ar, w, alpha, d) && is_quotient(ar, c.spec_neg(), d, s)
}

/// `dt` and `inv_dt` are the time of a substep and its reciprocal for a
/// frame of `n` substeps: the frame period over `n`, and one over that.
pub open spec fn is_substep_time<A: Arithmetic>(ar: &A, n: usize, dt: Scalar, inv_dt: Scalar) -> bool {
    exists|count: Scalar|
        is_count(ar, n, count) && is_quotient(ar, Scalar { bits: TIME_STEP_BITS }, count, dt)
            && is_quotient(ar, Scalar { bits: ONE_BITS }, dt, inv_dt)
}

/// `d` is the square of the distance of `q` from `p`: the length squared
/// of `p - q`.
pub open spec fn is_squared_distance<A: Arithmetic>(ar: &A, p: Vec3, q: Vec3, d: Scalar) -> bool {
    exists|x: Vec3| is_vec_difference(ar, p, q, x) && is_length_squared(ar, x, d)
}

/// `d` holds the squared distance of each of the positions `pos` from `p`.
pub open spec fn is_squared_distances<A: Arithmetic>(
    ar: &A,
    p: Vec3,
    pos: Seq<Vec3>,
    d: Seq<Scalar>,
) -> bool {
    &&& d.len() == pos.len()
    &&& forall|i: int| 0 <= i < pos.len() ==> is_squared_distance(ar, p, pos[i], #[trigger] d[i])
}

/// `g` is the particle of `pos` that is picked for `p`: the nearest by the
/// squared distances, as `is_nearest` has it.
pub open spec fn is_pick<A: Arithmetic>(ar: &A, p: Vec3, pos: Seq<Vec3>, g: Option<usize>) -> bool {
    exists|d: Seq<Scalar>| #[trigger] is_squared_distances(ar, p, pos, d) && is_nearest(d, g)
}

/// The acceleration of gravity: ten downwards.
pub open spec fn gravity() -> Vec3 {
    Vec3 { x: Scalar::zero(), y: Scalar { bits: GRAVITY_Y_BITS }, z: Scalar::zero() }
}

/// `u` is the velocity `vel` after a substep of gravity: `vel + gravity *
/// dt`.
pub open spec fn is_accelerated<A: Arithmetic>(ar: &A, vel: Vec3, dt: Scalar, u: Vec3) -> bool {
    exists|g: Vec3| is_scaled(ar, gravity(), dt, g) && is_vec_sum(ar, vel, g, u)
}

/// `r` is the position `p` after a substep at the velocity `v`: `p + v *
/// dt`.
pub open spec fn is_advanced<A: Arithmetic>(ar: &A, p: Vec3, v: Vec3, dt: Scalar, r: Vec3) -> bool {
    exists|d: Vec3| is_scaled(ar, v, dt, d) && is_vec_sum(ar, p, d, r)
}

/// `alpha` is the compliance term of a substep: `compliance * inv_dt *
/// inv_dt`.
pub open spec fn is_alpha<A: Arithmetic>(
    ar: &A,
    compliance: Scalar,
    inv_dt: Scalar,
    alpha: Scalar,
) -> bool {
    exists|x: Scalar| is_product(ar, compliance, inv_dt, x) && is_product(ar, x, inv_dt, alpha)
}

/// A vector of `n` copies of `x`.
pub fn filled<T: Copy>(x: T, n: usize) -> (v: Vec<T>)
    ensures
        v.len() == n,
        forall|i: int| 0 <= i < n ==> #[trigger] v[i] == x,
{
    let mut v: Vec<T> = Vec::new();
    let mut i: usize = 0;
    while i < n
        invariant
            i <= n,
            v.len() == i,
            forall|k: int| 0 <= k < i ==> #[trigger] v[k] == x,
        decreases n - i,
    {
        v.push(x);
        i = i + 1;
    }
    v
}

/// `r` is what a search for the least of `d` returns: the first index of
/// the least value among those below the largest finite value, and nothing
/// where no value is below it. A NaN is never below anything.
pub open spec fn is_nearest(d: Seq<Scalar>, r: Option<usize>) -> bool {
    match r {
        Some(k) => {
            &&& k < d.len()
            &&& d[k as int].spec_lt(Scalar { bits: MAX_BITS })
            &&& forall|j: int| 0 <= j < d.len() ==> !(#[trigger] d[j]).spec_lt(d[k as int])
            &&& forall|j: int|
                0 <= j < k ==> d[k as int].spec_lt(#[trigger] d[j]) || d[j].spec_is_nan()
        },
        None => forall|j: int|
            0 <= j < d.len() ==> !(#[trigger] d[j]).spec_lt(Scalar { bits: MAX_BITS }),
    }
}

/// A search has one result: `is_nearest` holds of no two.
pub proof fn lemma_nearest_is_unique(d: Seq<Scalar>, r1: Option<usize>, r2: Option<usize>)
    requires
        is_nearest(d, r1),
        is_nearest(d, r2),
    ensures
        r1 == r2,
{
    if let Some(k1) = r1 {
        if let Some(k2) = r2 {
            if k1 < k2 {
                assert(d[k2 as int].spec_lt(d[k1 as int]) || d[k1 as int].spec_is_nan());
                assert(!d[k2 as int].spec_lt(d[k1 as int]));
            } else if k2 < k1 {
                assert(d[k1 as int].spec_lt(d[k2 as int]) || d[k2 as int].spec_is_nan());
                assert(!d[k1 as int].spec_lt(d[k2 as int]));
            }
        } else {
            assert(!d[k1 as int].spec_lt(Scalar { bits: MAX_BITS }));
        }
    } else {
        if let Some(k2) = r2 {
            assert(!d[k2 as int].spec_lt(Scalar { bits: MAX_BITS }));
        }
    }
}

/// The index of the least of the squared distances `d`.
pub fn nearest_index(d: &Vec<Scalar>) -> (r: Option<usize>)
    ensures
        is_nearest(d@, r),
{
    let mut least = Scalar { bits: MAX_BITS };
    let mut r: Option<usize> = None;
    let mut i: usize = 0;
    while i < d.len()
        invariant
            i <= d.len(),
            !least.spec_is_nan(),
            r is None ==> least == (Scalar { bits: MAX_BITS }),
            r is Some ==> r->0 < i && least == d[r->0 as int] && least.spec_lt(
                Scalar { bits: MAX_BITS },
            ),
            forall|j: int| 0 <= j < i ==> !(#[trigger] d[j]).spec_lt(least),
            r is Some ==> forall|j: int|
                0 <= j < r->0 ==> least.spec_lt(#[trigger] d[j]) || d[j].spec_is_nan(),
        decreases d.len() - i,
    {
        if d[i].lt(least) {
            least = d[i];
            r = Some(i);
        }
        i = i + 1;
    }
    r
}

/// The particles of a body: four attributes under one index, and the slot
/// of the particle that is being dragged.
pub struct Particles {
    /// Where each particle is.
    pub pos: Vec<Vec3>,
    /// Where each particle was when the current substep began.
    pub prev: Vec<Vec3>,
    pub vel: Vec<Vec3>,
    /// The reciprocal of each mass; zero makes a particle kinematic.
    pub inv_mass: Vec<Scalar>,
    /// The inverse mass that the dragged particle had before it was pinned.
    pub grab_inv_mass: Scalar,
    /// The particle that is being dragged, if any.
    pub grab_id: Option<usize>,
}

/// The particles as mathematical sequences.
pub struct ParticlesView {
    pub pos: Seq<Vec3>,
    pub prev: Seq<Vec3>,
    pub vel: Seq<Vec3>,
    pub inv_mass: Seq<Scalar>,
    pub grab_inv_mass: Scalar,
    pub grab_id: Option<usize>,
}

impl ParticlesView {
    /// The four attributes have one length, and the dragged particle exists.
    pub open spec fn wf(self) -> bool {
        &&& self.prev.len() == self.pos.len()
        &&& self.vel.len() == self.pos.len()
        &&& self.inv_mass.len() == self.pos.len()
        &&& self.grab_id is Some ==> self.grab_id->0 < self.pos.len()
    }

    /// Particle `i` has inverse mass zero: the solver does not move it.
    pub open spec fn is_kinematic(self, i: int) -> bool {
        self.inv_mass[i].spec_is_zero()
    }

    /// `self` and `before` differ in positions at most.
    pub open spec fn differs_in_pos(self, before: ParticlesView) -> bool {
        self == (ParticlesView { pos: self.pos, ..before })
    }

    /// `self` and `before` differ in velocities at most.
    pub open spec fn differs_in_vel(self, before: ParticlesView) -> bool {
        self == (ParticlesView { vel: self.vel, ..before })
    }

    /// `self` and `before` differ in positions, previous positions and
    /// velocities at most: the inverse masses and the dragged particle are
    /// the same.
    pub open spec fn differs_in_motion(self, before: ParticlesView) -> bool {
        self == (ParticlesView { pos: self.pos, prev: self.prev, vel: self.vel, ..before })
    }

    /// Every particle that is kinematic in `before` is in `self` where it
    /// was in `before`.
    pub open spec fn keeps_kinematic_pos(self, before: ParticlesView) -> bool {
        forall|i: int|
            0 <= i < before.pos.len() && before.is_kinematic(i) ==> #[trigger] self.pos[i]
                == before.pos[i]
    }

    /// Every particle that is kinematic in `before` has in `self` the
    /// previous position that it had in `before`.
    pub open spec fn keeps_kinematic_prev(self, before: ParticlesView) -> bool {
        forall|i: int|
            0 <= i < before.pos.len() && before.is_kinematic(i) ==> #[trigger] self.prev[i]
                == before.prev[i]
    }

    /// Every particle that is kinematic in `before` has in `self` the
    /// velocity that it had in `before`.
    pub open spec fn keeps_kinematic_vel(self, before: ParticlesView) -> bool {
        forall|i: int|
            0 <= i < before.pos.len() && before.is_kinematic(i) ==> #[trigger] self.vel[i]
                == before.vel[i]
    }

    /// Every particle has in `self` as its previous position what a step
    /// from `before` leaves there: its position in `before`, or what it
    /// had, where it is kinematic.
    pub open spec fn remembers(self, before: ParticlesView) -> bool {
        forall|i: int|
            0 <= i < before.pos.len() ==> #[trigger] self.prev[i] == if before.is_kinematic(i) {
                before.prev[i]
            } else {
                before.pos[i]
            }
    }

    /// The state after particle `i` was put at `p` by the solver: where it
    /// is kinematic, nothing has changed.
    pub open spec fn placed(self, i: int, p: Vec3) -> ParticlesView {
        if self.is_kinematic(i) {
            self
        } else {
            ParticlesView { pos: self.pos.update(i, p), ..self }
        }
    }

    /// The state after particle `i` was given the velocity `v` by the
    /// solver: where it is kinematic, nothing has changed.
    pub open spec fn sped(self, i: int, v: Vec3) -> ParticlesView {
        if self.is_kinematic(i) {
            self
        } else {
            ParticlesView { vel: self.vel.update(i, v), ..self }
        }
    }

    /// `after` is `self` with particle `i` shifted by `k` times `v`, to
    /// `pos[i] + v * k`, kinematic or not.
    pub open spec fn shifted<A: Arithmetic>(
        self,
        ar: &A,
        i: int,
        v: Vec3,
        k: Scalar,
        after: ParticlesView,
    ) -> bool {
        exists|x: Vec3, p: Vec3|
            is_scaled(ar, v, k, x) && is_vec_sum(ar, self.pos[i], x, p) && after == (ParticlesView {
                pos: self.pos.update(i, p),
                ..self
            })
    }

    /// `after` is `self` with particle `i` pushed along `n` by the step `s`
    /// with its inverse mass for a share; a kinematic particle is not moved.
    pub open spec fn moved_along<A: Arithmetic>(
        self,
        ar: &A,
        i: int,
        n: Vec3,
        s: Scalar,
        after: ParticlesView,
    ) -> bool {
        if self.is_kinematic(i) {
            after == self
        } else {
            exists|p: Vec3| #[trigger]
                is_pushed(ar, self.pos[i], n, s, self.inv_mass[i], p) && after == self.placed(i, p)
        }
    }

    /// `after` is `self` with the distance constraint between `id0` and
    /// `id1` projected once. With `w` the sum of the two inverse masses and
    /// `len` the length of `pos[id0] - pos[id1]`, nothing moves where `w` or
    /// `len` is zero. Else, with `n = (pos[id0] - pos[id1]) / len` and `s =
    /// -(len - rest_len) / (w + alpha)`, first `id0` is moved along `n` by
    /// `s`, then `id1` by `-s`.
    pub open spec fn distance_projected<A: Arithmetic>(
        self,
        ar: &A,
        id0: int,
        id1: int,
        rest_len: Scalar,
        alpha: Scalar,
        after: ParticlesView,
    ) -> bool {
        exists|w: Scalar|
            is_sum(ar, self.inv_mass[id0], self.inv_mass[id1], w) && if w.spec_is_zero() {
                after == self
            } else {
                exists|apart: Vec3, len: Scalar|
                    is_vec_difference(ar, self.pos[id0], self.pos[id1], apart) && is_length(
                        ar,
                        apart,
                        len,
                    ) && if len.spec_is_zero() {
                        after == self
                    } else {
                        exists|n: Vec3, c: Scalar, s: Scalar, mid: ParticlesView|
                            is_divided(ar, apart, len, n) && is_difference(ar, len, rest_len, c)
                                && #[trigger] is_step(ar, c, w, alpha, s) && #[trigger] self.moved_along(
                                ar,
                                id0,
                                n,
                                s,
                                mid,
                            ) && mid.moved_along(ar, id1, n, s.spec_neg(), after)
                    }
            }
    }

    /// The state after particle `g` was picked up at `p`: its inverse mass
    /// is saved and cleared and it is placed at `p`. With no particle picked,
    /// only the slot is cleared.
    pub open spec fn grabbed(self, g: Option<usize>, p: Vec3) -> ParticlesView {
        match g {
            Some(i) => ParticlesView {
                pos: self.pos.update(i as int, p),
                inv_mass: self.inv_mass.update(i as int, Scalar::zero()),
                grab_inv_mass: self.inv_mass[i as int],
                grab_id: g,
                ..self
            },
            None => ParticlesView { grab_id: g, ..self },
        }
    }

    /// The state after the dragged particle, if any, was placed at `p`.
    pub open spec fn moved(self, p: Vec3) -> ParticlesView {
        match self.grab_id {
            Some(i) => ParticlesView { pos: self.pos.update(i as int, p), ..self },
            None => self,
        }
    }

    /// The state after the dragged particle, if any, was let go with
    /// velocity `v`: its inverse mass is the saved one again.
    pub open spec fn released(self, v: Vec3) -> ParticlesView {
        match self.grab_id {
            Some(i) => ParticlesView {
                inv_mass: self.inv_mass.update(i as int, self.grab_inv_mass),
                vel: self.vel.update(i as int, v),
                grab_id: None,
                ..self
            },
            None => self,
        }
    }
}

impl View for Particles {
    type V = ParticlesView;

    open spec fn view(&self) -> ParticlesView {
        ParticlesView {
            pos: self.pos@,
            prev: self.prev@,
            vel: self.vel@,
            inv_mass: self.inv_mass@,
            grab_inv_mass: self.grab_inv_mass,
            grab_id: self.grab_id,
        }
    }
}

impl Particles {
    /// `n` particles at rest at the origin, all kinematic, none dragged.
    pub fn new(n: usize) -> (s: Particles)
        ensures
            s@.wf(),
            s.pos.len() == n,
            forall|i: int| 0 <= i < n ==> #[trigger] s.pos[i] == Vec3::zero(),
            forall|i: int| 0 <= i < n ==> #[trigger] s.prev[i] == Vec3::zero(),
            forall|i: int| 0 <= i < n ==> #[trigger] s.vel[i] == Vec3::zero(),
            forall|i: int| 0 <= i < n ==> #[trigger] s.inv_mass[i] == Scalar::zero(),
            s.grab_inv_mass == Scalar::zero(),
            s.grab_id is None,
    {
        let zero = Scalar { bits: ZERO_BITS };
        Particles {
            pos: filled(Vec3::zeros(), n),
            prev: filled(Vec3::zeros(), n),
            vel: filled(Vec3::zeros(), n),
            inv_mass: filled(zero, n),
            grab_inv_mass: zero,
            grab_id: None,
        }
    }

    /// The squared distance of each particle from `p`.
    fn squared_distances<A: Arithmetic>(&self, ar: &A, p: Vec3) -> (d: Vec<Scalar>)
        ensures
            is_squared_distances(ar, p, self.pos@, d@),
    {
        let mut d: Vec<Scalar> = Vec::new();
        let mut i: usize = 0;
        while i < self.pos.len()
            invariant
                i <= self.pos.len(),
                d.len() == i,
                forall|k: int|
                    0 <= k < i ==> is_squared_distance(ar, p, self.pos[k], #[trigger] d[k]),
            decreases self.pos.len() - i,
        {
            d.push(ar.length_squared(ar.vec_difference(p, self.pos[i])));
            i = i + 1;
        }
        d
    }

    /// Puts particle `i` at `p`, unless it is kinematic.
    pub fn place(&mut self, i: usize, p: Vec3)
        requires
            old(self)@.wf(),
            i < old(self).pos.len(),
        ensures
            final(self)@ == old(self)@.placed(i as int, p),
            final(self)@.wf(),
    {
        if !self.inv_mass[i].is_zero() {
            self.pos.set(i, p);
        }
    }

    /// Gives particle `i` the velocity `v`, unless it is kinematic.
    pub fn speed(&mut self, i: usize, v: Vec3)
        requires
            old(self)@.wf(),
            i < old(self).pos.len(),
        ensures
            final(self)@ == old(self)@.sped(i as int, v),
            final(self)@.wf(),
    {
        if !self.inv_mass[i].is_zero() {
            self.vel.set(i, v);
        }
    }

    /// Gives every particle that is not kinematic the velocity that
    /// carried it from its previous position to where it is:
    /// `(pos - prev) * inv_dt`.
    pub fn recover_velocities<A: Arithmetic>(&mut self, ar: &A, inv_dt: Scalar)
        requires
            old(self)@.wf(),
        ensures
            final(self)@.differs_in_vel(old(self)@),
            final(self)@.wf(),
            final(self)@.keeps_kinematic_vel(old(self)@),
            forall|i: int|
                0 <= i < old(self).pos.len() && !old(self)@.is_kinematic(i) ==> is_velocity(
                    ar,
                    old(self).pos[i],
                    old(self).prev[i],
                    inv_dt,
                    #[trigger] final(self).vel[i],
                ),
    {
        let mut i: usize = 0;
        while i < self.pos.len()
            invariant
                i <= self.pos.len(),
                self@.differs_in_vel(old(self)@),
                self@.wf(),
                self@.keeps_kinematic_vel(old(self)@),
                forall|k: int|
                    0 <= k < i && !old(self)@.is_kinematic(k) ==> is_velocity(
                        ar,
                        old(self).pos[k],
                        old(self).prev[k],
                        inv_dt,
                        #[trigger] self.vel[k],
                    ),
            decreases self.pos.len() - i,
        {
            if !self.inv_mass[i].is_zero() {
                let v = ar.scaled(ar.vec_difference(self.pos[i], self.prev[i]), inv_dt);
                self.speed(i, v);
            }
            i = i + 1;
        }
    }

    /// One projection of a distance constraint between particles `id0` and
    /// `id1`, with compliance term `alpha`. It is passed over where the two
    /// inverse masses add up to zero and where the two particles coincide.
    /// Else, with `n` the unit vector from `id1` to `id0`, `len` their
    /// distance and `s = -(len - rest_len) / (w0 + w1 + alpha)`, particle
    /// `id0` moves by `n * s * w0` and particle `id1` by `n * -s * w1`. A
    /// kinematic endpoint, whose share is nothing, is read and not written.
    pub fn project_distance<A: Arithmetic>(
        &mut self,
        ar: &A,
        id0: usize,
        id1: usize,
        rest_len: Scalar,
        alpha: Scalar,
    )
        requires
            old(self)@.wf(),
            id0 < old(self).pos.len(),
            id1 < old(self).pos.len(),
        ensures
            old(self)@.distance_projected(
                ar,
                id0 as int,
                id1 as int,
                rest_len,
                alpha,
                final(self)@,
            ),
            final(self)@.differs_in_pos(old(self)@),
            final(self)@.wf(),
            final(self)@.keeps_kinematic_pos(old(self)@),
            forall|k: int|
                0 <= k < old(self).pos.len() && k != id0 && k != id1 ==> #[trigger] final(self).pos[k]
                    == old(self).pos[k],
    {
        let w0 = self.inv_mass[id0];
        let w1 = self.inv_mass[id1];
        let w = ar.sum(w0, w1);
        if w.is_zero() {
            return ;
        }
        let apart = ar.vec_difference(self.pos[id0], self.pos[id1]);
        let len = ar.length(apart);
        if len.is_zero() {
            return ;
        }
        let n = ar.divided(apart, len);
        let c = ar.difference(len, rest_len);
        let s = ar.quotient(c.neg(), ar.sum(w, alpha));
        self.push(ar, id0, n, s);
        let ghost mid = self@;
        self.push(ar, id1, n, s.neg());
        proof {
            assert(is_step(ar, c, w, alpha, s));
            assert(old(self)@.moved_along(ar, id0 as int, n, s, mid));
            assert(mid.moved_along(ar, id1 as int, n, s.spec_neg(), self@));
        }
    }

    /// Shifts particle `i` by `k` times `v`, to `pos[i] + v * k`, kinematic
    /// or not.
    pub fn shift<A: Arithmetic>(&mut self, ar: &A, i: usize, v: Vec3, k: Scalar)
        requires
            old(self)@.wf(),
            i < old(self).pos.len(),
        ensures
            old(self)@.shifted(ar, i as int, v, k, final(self)@),
            final(self)@.differs_in_pos(old(self)@),
            final(self)@.wf(),
            forall|j: int|
                0 <= j < old(self).pos.len() && j != i ==> #[trigger] final(self).pos[j] == old(self).pos[j],
    {
        let p = ar.vec_sum(self.pos[i], ar.scaled(v, k));
        self.pos.set(i, p);
    }

    /// Moves particle `i` along `n` by the step `s` with its inverse mass
    /// for a share: to `pos[i] + n * s * inv_mass[i]`. A kinematic particle
    /// is not moved.
    pub fn push<A: Arithmetic>(&mut self, ar: &A, i: usize, n: Vec3, s: Scalar)
        requires
            old(self)@.wf(),
            i < old(self).pos.len(),
        ensures
            old(self)@.moved_along(ar, i as int, n, s, final(self)@),
            final(self)@.differs_in_pos(old(self)@),
            final(self)@.wf(),
            final(self)@.keeps_kinematic_pos(old(self)@),
            forall|k: int|
                0 <= k < old(self).pos.len() && k != i ==> #[trigger] final(self).pos[k] == old(self).pos[k],
    {
        let w = self.inv_mass[i];
        if !w.is_zero() {
            let p = ar.vec_sum(self.pos[i], ar.scaled(ar.scaled(n, s), w));
            proof {
                assert(is_pushed(ar, self.pos[i as int], n, s, w, p));
            }
            self.place(i, p);
        }
    }

    /// Picks up particle `g` at `p`, or clears the slot where `g` is nothing.
    pub fn grab(&mut self, g: Option<usize>, p: Vec3)
        requires
            old(self)@.wf(),
            g is Some ==> g->0 < old(self).pos.len(),
        ensures
            final(self)@ == old(self)@.grabbed(g, p),
            final(self)@.wf(),
    {
        self.grab_id = g;
        if let Some(i) = g {
            self.grab_inv_mass = self.inv_mass[i];
            self.inv_mass.set(i, Scalar { bits: ZERO_BITS });
            self.pos.set(i, p);
        }
    }

    /// Picks up the particle nearest to `p`, by the squared distances that
    /// `ar` computes, and places it at `p`. Which particle that is, is in
    /// `grab_id` afterwards.
    pub fn start_grab<A: Arithmetic>(&mut self, ar: &A, p: Vec3)
        requires
            old(self)@.wf(),
        ensures
            is_pick(ar, p, old(self).pos@, final(self).grab_id),
            final(self)@ == old(self)@.grabbed(final(self).grab_id, p),
            final(self)@.wf(),
    {
        let d = self.squared_distances(ar, p);
        let g = nearest_index(&d);
        self.grab(g, p);
    }

    /// Places the dragged particle at `p`. Without one, nothing changes.
    pub fn move_grabbed(&mut self, p: Vec3)
        requires
            old(self)@.wf(),
        ensures
            final(self)@ == old(self)@.moved(p),
            final(self)@.wf(),
    {
        if let Some(i) = self.grab_id {
            self.pos.set(i, p);
        }
    }

    /// Lets the dragged particle go with velocity `v`: its inverse mass is
    /// restored. Without one, nothing changes.
    pub fn end_grab(&mut self, v: Vec3)
        requires
            old(self)@.wf(),
        ensures
            final(self)@ == old(self)@.released(v),
            final(self)@.wf(),
    {
        if let Some(i) = self.grab_id {
            self.inv_mass.set(i, self.grab_inv_mass);
            self.vel.set(i, v);
        }
        self.grab_id = None;
    }
}

/// Picking a particle up and letting it go gives every particle the inverse
/// mass it had, leaves no particle dragged, and gives the particle that was
/// picked exactly the velocity it was let go with; the other velocities and
/// the previous positions are untouched.
pub proof fn lemma_grab_release_restores(s: ParticlesView, g: Option<usize>, p: Vec3, v: Vec3)
    requires
        s.wf(),
        g is Some ==> g->0 < s.pos.len(),
    ensures
        s.grabbed(g, p).released(v).inv_mass == s.inv_mass,
        s.grabbed(g, p).released(v).grab_id is None,
        s.grabbed(g, p).released(v).prev == s.prev,
        g is Some ==> s.grabbed(g, p).released(v).vel == s.vel.update(g->0 as int, v),
        g is None ==> s.grabbed(g, p).released(v).vel == s.vel,
{
    if let Some(i) = g {
        assert(s.inv_mass.update(i as int, Scalar::zero()).update(i as int, s.inv_mass[i as int])
            =~= s.inv_mass);
    }
}

/// Moving the dragged particle any number of times in between changes
/// neither what is restored nor the velocity given: a pick-up, a move and
/// a release leave the inverse masses as they were.
pub proof fn lemma_grab_move_release_restores(
    s: ParticlesView,
    g: Option<usize>,
    p: Vec3,
    q: Vec3,
    v: Vec3,
)
    requires
        s.wf(),
        g is Some ==> g->0 < s.pos.len(),
    ensures
        s.grabbed(g, p).moved(q).released(v).inv_mass == s.inv_mass,
        s.grabbed(g, p).moved(q).released(v).grab_id is None,
        g is Some ==> s.grabbed(g, p).moved(q).released(v).vel[g->0 as int] == v,
        g is Some ==> s.grabbed(g, p).moved(q).released(v).pos == s.pos.update(g->0 as int, q),
{
    if let Some(i) = g {
        assert(s.inv_mass.update(i as int, Scalar::zero()).update(i as int, s.inv_mass[i as int])
            =~= s.inv_mass);
        assert(s.pos.update(i as int, p).update(i as int, q) =~= s.pos.update(i as int, q));
    }
}

} // verus!
