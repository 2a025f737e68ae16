//! The simulation core: force model, integrator, and the fixed tick.
//!
//! One tick is the sequence: clear accumulators, accumulate the pairwise
//! term over every unordered pair, force anchor accumulators to zero,
//! accumulate the central term, then integrate positions and reset the
//! accumulators. Every stage is specified as a function on the sequence of
//! bodies, and `tick` is proved to be exactly their composition.

use crate::body::{body_wf, Body, SimError};
use crate::fixed::{
    add_fix, div_fix, fadd_s, fdiv_s, fmul_s, lemma_fmul_square_pos, mul_fix, LIMIT, SCALE,
};
use vstd::arithmetic::div_mod::lemma_div_of0;
use crate::vec3::{
    in_range_s, len_s, v3_as_vec3, v3_zero, vadd, vadd_s, vlen, vscale, vscale_s, vsub, vsub_s,
    Vec3, V3,
};
use vstd::prelude::*;

verus! {

/// Which pairwise force acts between bodies.
#[derive(Clone, Copy, PartialEq, Eq, Structural, Debug)]
pub enum ForcePolicy {
    /// Repulsion softened by the combined radii, with a range cutoff.
    Repulsion,
    /// Plain inverse-square attraction, without softening or cutoff.
    Attraction,
}

/// Startup-time configuration constants. None of them changes during a run.
#[derive(Clone, Copy, PartialEq, Eq, Structural, Debug)]
pub struct SimConfig {
    /// Which pairwise term is accumulated.
    pub policy: ForcePolicy,
    /// Whether the central term pulling bodies toward the origin is active.
    pub central_force: bool,
    /// Gravity coefficient, used by the attraction policy and the central term.
    pub gravity: i128,
    /// Repulsion coefficient of the repulsion policy.
    pub repulsion: i128,
    /// Fractional energy loss per tick, as a fraction of `SCALE`.
    pub damping: i128,
    /// Pairs whose radius-scaled distance exceeds this are skipped.
    pub force_cutoff: i128,
    /// Distances below this are treated as degenerate and skipped.
    pub min_distance: i128,
    /// Divisor applied to the distance in the central term's magnitude.
    pub central_scale: i128,
}

/// The smallest admissible degeneracy guard: one thousandth of a unit.
/// Above it, the fixed-point square of a distance is never zero.
pub const MIN_DISTANCE_FLOOR: i128 = 1_000;

/// Well-formedness of a configuration.
pub open spec fn config_wf(c: SimConfig) -> bool {
    &&& 0 <= c.gravity <= LIMIT
    &&& 0 <= c.repulsion <= LIMIT
    &&& 0 <= c.damping <= SCALE
    &&& 0 < c.force_cutoff <= LIMIT
    &&& MIN_DISTANCE_FLOOR <= c.min_distance <= LIMIT
    &&& 0 < c.central_scale <= LIMIT
}

impl Default for SimConfig {
    /// The stock configuration: softened repulsion with cutoff, central
    /// pull, and a half-percent damping.
    fn default() -> (c: SimConfig)
        ensures
            c.policy == ForcePolicy::Repulsion,
            c.central_force == true,
            c.gravity == 3 * SCALE,
            c.repulsion == 25 * SCALE,
            c.damping == 5_000,
            c.force_cutoff == 15 * SCALE,
            c.min_distance == 100_000,
            c.central_scale == 10 * SCALE,
            config_wf(c),
    {
        SimConfig {
            policy: ForcePolicy::Repulsion,
            central_force: true,
            gravity: 3 * SCALE,
            repulsion: 25 * SCALE,
            damping: 5_000,
            force_cutoff: 15 * SCALE,
            min_distance: 100_000,
            central_scale: 10 * SCALE,
        }
    }
}

/// The same body with another acceleration.
pub open spec fn with_acc_s(b: Body, a: V3) -> Body {
    Body { acceleration: v3_as_vec3(a), ..b }
}

/// Two bodies agreeing on everything but the accumulator.
pub open spec fn same_geometry(b1: Body, b2: Body) -> bool {
    &&& b1.mass == b2.mass
    &&& b1.radius == b2.radius
    &&& b1.position == b2.position
    &&& b1.previous_position == b2.previous_position
    &&& b1.is_anchor == b2.is_anchor
}

/// Separation vector from `a` to `b`.
pub open spec fn pair_delta_s(a: Body, b: Body) -> V3 {
    vsub_s(b.position@, a.position@)
}

/// Distance between the two bodies, in raw units.
pub open spec fn pair_dist_s(a: Body, b: Body) -> int {
    len_s(pair_delta_s(a, b))
}

/// Distance scaled by the combined radii: the softening of the repulsion.
pub open spec fn scaled_dist_s(a: Body, b: Body) -> int {
    fdiv_s(pair_dist_s(a, b), a.radius + b.radius)
}

/// Whether a pair contributes nothing: beyond the cutoff, or so close that
/// the force would be degenerate.
pub open spec fn pair_skip_s(a: Body, b: Body, c: SimConfig) -> bool {
    match c.policy {
        ForcePolicy::Repulsion => scaled_dist_s(a, b) > c.force_cutoff || scaled_dist_s(a, b)
            < c.min_distance,
        ForcePolicy::Attraction => pair_dist_s(a, b) < c.min_distance,
    }
}

/// Magnitude of the pairwise acceleration onto one body of a pair, given
/// the mass of the other body.
pub open spec fn pair_mag_s(other_mass: int, a: Body, b: Body, c: SimConfig) -> int {
    match c.policy {
        ForcePolicy::Repulsion => fdiv_s(
            fmul_s(c.repulsion as int, other_mass),
            fmul_s(scaled_dist_s(a, b), scaled_dist_s(a, b)),
        ),
        ForcePolicy::Attraction => fmul_s(
            fdiv_s(c.gravity as int, fmul_s(pair_dist_s(a, b), pair_dist_s(a, b))),
            other_mass,
        ),
    }
}

/// Unit direction from `a` to `b`, in fixed-point.
pub open spec fn pair_unit_s(a: Body, b: Body) -> V3 {
    V3 {
        x: fdiv_s(pair_delta_s(a, b).x, pair_dist_s(a, b)),
        y: fdiv_s(pair_delta_s(a, b).y, pair_dist_s(a, b)),
        z: fdiv_s(pair_delta_s(a, b).z, pair_dist_s(a, b)),
    }
}

/// The pairwise term applied to the accumulator of the first body of a pair:
/// repulsion pushes it away from the second body, attraction pulls it closer.
pub open spec fn first_apply_s(a: Body, b: Body, acc: V3, c: SimConfig) -> V3 {
    if pair_skip_s(a, b, c) {
        acc
    } else {
        let w = vscale_s(pair_unit_s(a, b), pair_mag_s(b.mass as int, a, b, c));
        match c.policy {
            ForcePolicy::Repulsion => vsub_s(acc, w),
            ForcePolicy::Attraction => vadd_s(acc, w),
        }
    }
}

/// The pairwise term applied to the accumulator of the second body of a pair,
/// mirroring `first_apply_s` with the roles exchanged.
pub open spec fn second_apply_s(a: Body, b: Body, acc: V3, c: SimConfig) -> V3 {
    if pair_skip_s(a, b, c) {
        acc
    } else {
        let w = vscale_s(pair_unit_s(a, b), pair_mag_s(a.mass as int, a, b, c));
        match c.policy {
            ForcePolicy::Repulsion => vadd_s(acc, w),
            ForcePolicy::Attraction => vsub_s(acc, w),
        }
    }
}

/// Index of the `m`-th other body interacting with body `k`, in the order
/// the pairwise pass reaches it.
pub open spec fn other_index_s(k: int, m: int) -> int {
    if m < k {
        m
    } else {
        m + 1
    }
}

/// One pairwise interaction folded onto the accumulator of body `k`.
pub open spec fn apply_contrib_s(s: Seq<Body>, c: SimConfig, k: int, o: int, acc: V3) -> V3 {
    if o < k {
        second_apply_s(s[o], s[k], acc, c)
    } else {
        first_apply_s(s[k], s[o], acc, c)
    }
}

/// Accumulator of body `k` after its first `m` pairwise interactions.
pub open spec fn acc_after_s(s: Seq<Body>, c: SimConfig, k: int, m: nat) -> V3
    decreases m,
{
    if m == 0 {
        s[k].acceleration@
    } else {
        apply_contrib_s(s, c, k, other_index_s(k, m - 1), acc_after_s(s, c, k, (m - 1) as nat))
    }
}

/// Accumulator of body `k` after the whole pairwise pass.
pub open spec fn pairwise_acc_s(s: Seq<Body>, c: SimConfig, k: int) -> V3 {
    acc_after_s(s, c, k, (s.len() - 1) as nat)
}

/// The whole population with cleared accumulators.
pub open spec fn clear_accs_seq_s(s: Seq<Body>) -> Seq<Body> {
    s.map(|k: int, b: Body| with_acc_s(b, v3_zero()))
}

/// The whole population after the pairwise pass.
pub open spec fn pairwise_seq_s(s: Seq<Body>, c: SimConfig) -> Seq<Body> {
    s.map(|k: int, b: Body| with_acc_s(b, pairwise_acc_s(s, c, k)))
}

/// The whole population with anchor accumulators forced back to zero.
pub open spec fn anchors_seq_s(s: Seq<Body>) -> Seq<Body> {
    s.map(
        |k: int, b: Body|
            if b.is_anchor {
                with_acc_s(b, v3_zero())
            } else {
                b
            },
    )
}

/// The central term folded onto the accumulator of one body: a pull toward
/// the origin whose magnitude grows mildly with the distance from it.
/// Anchors and bodies at a degenerate distance from the origin are skipped.
pub open spec fn central_acc_s(b: Body, c: SimConfig) -> V3 {
    let d = len_s(b.position@);
    if b.is_anchor || d < c.min_distance {
        b.acceleration@
    } else {
        let q = fdiv_s(d, c.central_scale as int);
        let mag = fadd_s(fmul_s(c.gravity as int, b.mass as int), fmul_s(q, q));
        let u = V3 {
            x: fdiv_s(b.position@.x, d),
            y: fdiv_s(b.position@.y, d),
            z: fdiv_s(b.position@.z, d),
        };
        vsub_s(b.acceleration@, vscale_s(u, mag))
    }
}

/// The whole population after the central pass.
pub open spec fn central_seq_s(s: Seq<Body>, c: SimConfig) -> Seq<Body> {
    s.map(|k: int, b: Body| with_acc_s(b, central_acc_s(b, c)))
}

/// New position of a non-anchor body under the damped two-position update:
/// the current position, plus the damped displacement of the last tick,
/// plus the accumulated acceleration times the squared timestep.
pub open spec fn integrate_pos_s(b: Body, damping: int, dt: int) -> V3 {
    vadd_s(
        vadd_s(
            b.position@,
            vscale_s(vsub_s(b.position@, b.previous_position@), SCALE - damping),
        ),
        vscale_s(b.acceleration@, fmul_s(dt, dt)),
    )
}

/// One body advanced by the integrator: anchors stay in place; every
/// accumulator is reset to zero for the next tick.
pub open spec fn integrate_body_s(b: Body, damping: int, dt: int) -> Body {
    if b.is_anchor {
        with_acc_s(b, v3_zero())
    } else {
        Body {
            position: v3_as_vec3(integrate_pos_s(b, damping, dt)),
            previous_position: b.position,
            acceleration: v3_as_vec3(v3_zero()),
            ..b
        }
    }
}

/// The whole population advanced by the integrator.
pub open spec fn integrate_seq_s(s: Seq<Body>, damping: int, dt: int) -> Seq<Body> {
    s.map(|k: int, b: Body| integrate_body_s(b, damping, dt))
}

/// The complete fixed-tick transition: clear, pairwise term, anchor
/// override, optional central term, integrate.
pub open spec fn tick_seq_s(s: Seq<Body>, c: SimConfig, dt: int) -> Seq<Body> {
    let cleared = clear_accs_seq_s(s);
    let paired = pairwise_seq_s(cleared, c);
    let anchored = anchors_seq_s(paired);
    let pulled = if c.central_force {
        central_seq_s(anchored, c)
    } else {
        anchored
    };
    integrate_seq_s(pulled, c.damping as int, dt)
}

/// Writing a body's own accumulator back leaves the body unchanged.
pub proof fn lemma_with_acc_self(b: Body)
    requires
        in_range_s(b.acceleration@),
    ensures
        with_acc_s(b, b.acceleration@) == b,
{
}

/// Whether a pair is skipped depends only on radii and positions.
pub proof fn lemma_pair_skip_congruence(a1: Body, b1: Body, a2: Body, b2: Body, c: SimConfig)
    requires
        same_geometry(a1, a2),
        same_geometry(b1, b2),
    ensures
        pair_skip_s(a1, b1, c) == pair_skip_s(a2, b2, c),
{
    assert(pair_delta_s(a1, b1) == pair_delta_s(a2, b2));
    assert(pair_dist_s(a1, b1) == pair_dist_s(a2, b2));
    assert(scaled_dist_s(a1, b1) == scaled_dist_s(a2, b2));
}

/// The pairwise term depends only on masses, radii and positions, never on
/// the accumulators.
pub proof fn lemma_pair_apply_congruence(
    a1: Body,
    b1: Body,
    a2: Body,
    b2: Body,
    acc: V3,
    c: SimConfig,
)
    requires
        same_geometry(a1, a2),
        same_geometry(b1, b2),
    ensures
        first_apply_s(a1, b1, acc, c) == first_apply_s(a2, b2, acc, c),
        second_apply_s(a1, b1, acc, c) == second_apply_s(a2, b2, acc, c),
{
    assert(pair_delta_s(a1, b1) == pair_delta_s(a2, b2));
    assert(pair_dist_s(a1, b1) == pair_dist_s(a2, b2));
    assert(scaled_dist_s(a1, b1) == scaled_dist_s(a2, b2));
    assert(pair_skip_s(a1, b1, c) == pair_skip_s(a2, b2, c));
    assert(pair_unit_s(a1, b1) == pair_unit_s(a2, b2));
    assert(pair_mag_s(b1.mass as int, a1, b1, c) == pair_mag_s(b2.mass as int, a2, b2, c));
    assert(pair_mag_s(a1.mass as int, a1, b1, c) == pair_mag_s(a2.mass as int, a2, b2, c));
}

/// Every body of a population is well-formed.
pub open spec fn bodies_wf(s: Seq<Body>) -> bool {
    forall|i: int| 0 <= i < s.len() ==> body_wf(#[trigger] s[i])
}

/// The body store and the configuration it runs under.
pub struct Simulation {
    /// The population, indexed by the handles `create_body` returns.
    pub bodies: Vec<Body>,
    /// The constants of the force model and integrator.
    pub config: SimConfig,
}

/// The body a successful `create_body` call appends.
pub open spec fn new_body_s(
    mass: i128,
    radius: i128,
    position: Vec3,
    velocity: Vec3,
    is_anchor: bool,
    dt: i128,
) -> Body {
    Body {
        mass,
        radius,
        position,
        previous_position: if is_anchor {
            position
        } else {
            v3_as_vec3(vsub_s(position@, vscale_s(velocity@, dt as int)))
        },
        acceleration: v3_as_vec3(v3_zero()),
        is_anchor,
    }
}

impl Simulation {
    /// Well-formedness: a sound configuration and a well-formed population.
    pub open spec fn wf(self) -> bool {
        &&& config_wf(self.config)
        &&& bodies_wf(self.bodies@)
    }

    /// An empty simulation under the given configuration.
    pub fn new(config: SimConfig) -> (s: Simulation)
        requires
            config_wf(config),
        ensures
            s.wf(),
            s.config == config,
            s.bodies@.len() == 0,
    {
        Simulation { bodies: Vec::new(), config }
    }

    /// Number of bodies in the store.
    pub fn body_count(&self) -> (n: usize)
        ensures
            n == self.bodies@.len(),
    {
        self.bodies.len()
    }

    /// Adds a body and returns its handle; rejects a non-positive mass or
    /// radius and leaves the population unchanged in that case.
    pub fn create_body(
        &mut self,
        mass: i128,
        radius: i128,
        position: Vec3,
        velocity: Vec3,
        is_anchor: bool,
        dt: i128,
    ) -> (r: Result<usize, SimError>)
        requires
            old(self).wf(),
            old(self).bodies@.len() < usize::MAX,
            mass <= LIMIT,
            radius <= LIMIT,
            in_range_s(position@),
            in_range_s(velocity@),
            0 < dt <= LIMIT,
        ensures
            final(self).wf(),
            final(self).config == old(self).config,
            mass <= 0 ==> r == Result::<usize, SimError>::Err(SimError::NonPositiveMass)
                && final(self).bodies@ == old(self).bodies@,
            mass > 0 && radius <= 0 ==> r == Result::<usize, SimError>::Err(
                SimError::NonPositiveRadius,
            ) && final(self).bodies@ == old(self).bodies@,
            mass > 0 && radius > 0 ==> r == Result::<usize, SimError>::Ok(
                old(self).bodies@.len() as usize,
            ) && final(self).bodies@ == old(self).bodies@.push(
                new_body_s(mass, radius, position, velocity, is_anchor, dt),
            ),
    {
        match Body::new(mass, radius, position, velocity, is_anchor, dt) {
            Ok(b) => {
                let h = self.bodies.len();
                proof {
                    assert(b == new_body_s(mass, radius, position, velocity, is_anchor, dt));
                }
                self.bodies.push(b);
                Ok(h)
            },
            Err(e) => Err(e),
        }
    }

    /// Current position of a body.
    pub fn position(&self, handle: usize) -> (p: Vec3)
        requires
            handle < self.bodies@.len(),
        ensures
            p == self.bodies@[handle as int].position,
    {
        self.bodies[handle].position
    }

    /// Position of a body one tick earlier.
    pub fn previous_position(&self, handle: usize) -> (p: Vec3)
        requires
            handle < self.bodies@.len(),
        ensures
            p == self.bodies@[handle as int].previous_position,
    {
        self.bodies[handle].previous_position
    }

    /// Accumulated acceleration of a body.
    pub fn acceleration(&self, handle: usize) -> (a: Vec3)
        requires
            handle < self.bodies@.len(),
        ensures
            a == self.bodies@[handle as int].acceleration,
    {
        self.bodies[handle].acceleration
    }

    /// Radius of a body.
    pub fn radius(&self, handle: usize) -> (r: i128)
        requires
            handle < self.bodies@.len(),
        ensures
            r == self.bodies@[handle as int].radius,
    {
        self.bodies[handle].radius
    }

    /// Mass of a body.
    pub fn mass(&self, handle: usize) -> (m: i128)
        requires
            handle < self.bodies@.len(),
        ensures
            m == self.bodies@[handle as int].mass,
    {
        self.bodies[handle].mass
    }

    /// Whether a body is an anchor.
    pub fn is_anchor(&self, handle: usize) -> (a: bool)
        requires
            handle < self.bodies@.len(),
        ensures
            a == self.bodies@[handle as int].is_anchor,
    {
        self.bodies[handle].is_anchor
    }

    /// Resets every accumulator to zero, the first stage of a tick.
    pub fn clear_accelerations(&mut self)
        requires
            old(self).wf(),
        ensures
            final(self).wf(),
            final(self).config == old(self).config,
            final(self).bodies@ == clear_accs_seq_s(old(self).bodies@),
    {
        let ghost s0 = self.bodies@;
        let n = self.bodies.len();
        let mut i: usize = 0;
        while i < n
            invariant
                self.config == old(self).config,
                config_wf(self.config),
                n == s0.len(),
                self.bodies@.len() == n,
                i <= n,
                bodies_wf(self.bodies@),
                forall|k: int| 0 <= k < i ==> self.bodies@[k] == with_acc_s(s0[k], v3_zero()),
                forall|k: int| i <= k < n ==> self.bodies@[k] == s0[k],
            decreases n - i,
        {
            let b = self.bodies[i];
            self.bodies[i] = Body { acceleration: Vec3::zero(), ..b };
            i += 1;
        }
        proof {
            assert(self.bodies@ =~= clear_accs_seq_s(s0));
        }
    }

    /// Accumulates the pairwise term of one pair onto both bodies.
    fn apply_pair(&mut self, i: usize, j: usize)
        requires
            old(self).wf(),
            i < j < old(self).bodies@.len(),
        ensures
            final(self).wf(),
            final(self).config == old(self).config,
            final(self).bodies@.len() == old(self).bodies@.len(),
            final(self).bodies@[i as int] == with_acc_s(
                old(self).bodies@[i as int],
                first_apply_s(
                    old(self).bodies@[i as int],
                    old(self).bodies@[j as int],
                    old(self).bodies@[i as int].acceleration@,
                    old(self).config,
                ),
            ),
            final(self).bodies@[j as int] == with_acc_s(
                old(self).bodies@[j as int],
                second_apply_s(
                    old(self).bodies@[i as int],
                    old(self).bodies@[j as int],
                    old(self).bodies@[j as int].acceleration@,
                    old(self).config,
                ),
            ),
            forall|k: int|
                0 <= k < old(self).bodies@.len() && k != i && k != j ==> final(self).bodies@[k]
                    == old(self).bodies@[k],
    {
        let a = self.bodies[i];
        let b = self.bodies[j];
        let ghost c = self.config;
        let delta = vsub(b.position, a.position);
        let dist = vlen(delta);
        proof {
            assert(delta@ == pair_delta_s(a, b));
            assert(dist == pair_dist_s(a, b));
        }
        match self.config.policy {
            ForcePolicy::Repulsion => {
                let r_sum = a.radius + b.radius;
                let sd = div_fix(dist, r_sum);
                proof {
                    assert(sd == scaled_dist_s(a, b));
                }
                if sd > self.config.force_cutoff || sd < self.config.min_distance {
                    proof {
                        assert(pair_skip_s(a, b, c));
                        lemma_with_acc_self(a);
                        lemma_with_acc_self(b);
                    }
                    return;
                }
                proof {
                    assert(!pair_skip_s(a, b, c));
                    if dist == 0 {
                        lemma_div_of0(r_sum as int);
                        assert(sd == 0);
                        assert(false);
                    }
                    lemma_fmul_square_pos(sd as int);
                }
                let sd2 = mul_fix(sd, sd);
                let mag_i = div_fix(mul_fix(self.config.repulsion, b.mass), sd2);
                let mag_j = div_fix(mul_fix(self.config.repulsion, a.mass), sd2);
                let u = Vec3::new(
                    div_fix(delta.x, dist),
                    div_fix(delta.y, dist),
                    div_fix(delta.z, dist),
                );
                proof {
                    assert(u@ == pair_unit_s(a, b));
                    assert(mag_i == pair_mag_s(b.mass as int, a, b, c));
                    assert(mag_j == pair_mag_s(a.mass as int, a, b, c));
                }
                let na = Body { acceleration: vsub(a.acceleration, vscale(u, mag_i)), ..a };
                let nb = Body { acceleration: vadd(b.acceleration, vscale(u, mag_j)), ..b };
                self.bodies[i] = na;
                self.bodies[j] = nb;
                proof {
                    assert(na == with_acc_s(a, first_apply_s(a, b, a.acceleration@, c)));
                    assert(nb == with_acc_s(b, second_apply_s(a, b, b.acceleration@, c)));
                }
            },
            ForcePolicy::Attraction => {
                if dist < self.config.min_distance {
                    proof {
                        assert(pair_skip_s(a, b, c));
                        lemma_with_acc_self(a);
                        lemma_with_acc_self(b);
                    }
                    return;
                }
                proof {
                    assert(!pair_skip_s(a, b, c));
                    lemma_fmul_square_pos(dist as int);
                }
                let dist2 = mul_fix(dist, dist);
                let base = div_fix(self.config.gravity, dist2);
                let mag_i = mul_fix(base, b.mass);
                let mag_j = mul_fix(base, a.mass);
                let u = Vec3::new(
                    div_fix(delta.x, dist),
                    div_fix(delta.y, dist),
                    div_fix(delta.z, dist),
                );
                proof {
                    assert(u@ == pair_unit_s(a, b));
                    assert(mag_i == pair_mag_s(b.mass as int, a, b, c));
                    assert(mag_j == pair_mag_s(a.mass as int, a, b, c));
                }
                let na = Body { acceleration: vadd(a.acceleration, vscale(u, mag_i)), ..a };
                let nb = Body { acceleration: vsub(b.acceleration, vscale(u, mag_j)), ..b };
                self.bodies[i] = na;
                self.bodies[j] = nb;
                proof {
                    assert(na == with_acc_s(a, first_apply_s(a, b, a.acceleration@, c)));
                    assert(nb == with_acc_s(b, second_apply_s(a, b, b.acceleration@, c)));
                }
            },
        }
    }

    /// Accumulates the pairwise term over every unordered pair of distinct
    /// bodies, visiting each pair exactly once.
    pub fn pairwise_forces(&mut self)
        requires
            old(self).wf(),
        ensures
            final(self).wf(),
            final(self).config == old(self).config,
            final(self).bodies@ == pairwise_seq_s(old(self).bodies@, old(self).config),
    {
        let ghost s0 = self.bodies@;
        let ghost c = self.config;
        let n = self.bodies.len();
        let mut i: usize = 0;
        while i < n
            invariant
                self.config == c,
                config_wf(c),
                n == s0.len(),
                self.bodies@.len() == n,
                i <= n,
                bodies_wf(s0),
                bodies_wf(self.bodies@),
                forall|k: int| 0 <= k < n ==> same_geometry(#[trigger] self.bodies@[k], s0[k]),
                forall|k: int|
                    0 <= k < i ==> #[trigger] self.bodies@[k].acceleration@ == acc_after_s(
                        s0,
                        c,
                        k,
                        (n - 1) as nat,
                    ),
                forall|k: int|
                    i <= k < n ==> #[trigger] self.bodies@[k].acceleration@ == acc_after_s(
                        s0,
                        c,
                        k,
                        i as nat,
                    ),
            decreases n - i,
        {
            let mut j: usize = i + 1;
            while j < n
                invariant
                    self.config == c,
                    config_wf(c),
                    n == s0.len(),
                    self.bodies@.len() == n,
                    i < n,
                    i < j <= n,
                    bodies_wf(s0),
                    bodies_wf(self.bodies@),
                    forall|k: int| 0 <= k < n ==> same_geometry(#[trigger] self.bodies@[k], s0[k]),
                    forall|k: int|
                        0 <= k < i ==> #[trigger] self.bodies@[k].acceleration@ == acc_after_s(
                            s0,
                            c,
                            k,
                            (n - 1) as nat,
                        ),
                    self.bodies@[i as int].acceleration@ == acc_after_s(
                        s0,
                        c,
                        i as int,
                        (j - 1) as nat,
                    ),
                    forall|k: int|
                        i < k < j ==> #[trigger] self.bodies@[k].acceleration@ == acc_after_s(
                            s0,
                            c,
                            k,
                            (i + 1) as nat,
                        ),
                    forall|k: int|
                        j <= k < n ==> #[trigger] self.bodies@[k].acceleration@ == acc_after_s(
                            s0,
                            c,
                            k,
                            i as nat,
                        ),
                decreases n - j,
            {
                let ghost prev = self.bodies@;
                self.apply_pair(i, j);
                proof {
                    let iv = i as int;
                    let jv = j as int;
                    lemma_pair_apply_congruence(
                        prev[iv],
                        prev[jv],
                        s0[iv],
                        s0[jv],
                        prev[iv].acceleration@,
                        c,
                    );
                    lemma_pair_apply_congruence(
                        prev[iv],
                        prev[jv],
                        s0[iv],
                        s0[jv],
                        prev[jv].acceleration@,
                        c,
                    );
                    assert(other_index_s(iv, jv - 1) == jv);
                    assert(other_index_s(jv, iv) == iv);
                    assert(acc_after_s(s0, c, iv, jv as nat) == apply_contrib_s(
                        s0,
                        c,
                        iv,
                        jv,
                        acc_after_s(s0, c, iv, (jv - 1) as nat),
                    ));
                    assert(acc_after_s(s0, c, jv, (iv + 1) as nat) == apply_contrib_s(
                        s0,
                        c,
                        jv,
                        iv,
                        acc_after_s(s0, c, jv, iv as nat),
                    ));
                    assert(self.bodies@[iv].acceleration@ == acc_after_s(s0, c, iv, jv as nat));
                    assert(self.bodies@[jv].acceleration@ == acc_after_s(
                        s0,
                        c,
                        jv,
                        (iv + 1) as nat,
                    ));
                }
                j += 1;
            }
            i += 1;
        }
        proof {
            assert forall|k: int| 0 <= k < n implies self.bodies@[k] == with_acc_s(
                s0[k],
                pairwise_acc_s(s0, c, k),
            ) by {
                assert(self.bodies@[k].acceleration@ == acc_after_s(s0, c, k, (n - 1) as nat));
                assert(in_range_s(self.bodies@[k].acceleration@));
            }
            assert(self.bodies@ =~= pairwise_seq_s(s0, c));
        }
    }

    /// Forces the accumulator of every anchor back to zero after the
    /// pairwise pass: whatever was computed for it, an anchor never moves.
    pub fn zero_anchor_accelerations(&mut self)
        requires
            old(self).wf(),
        ensures
            final(self).wf(),
            final(self).config == old(self).config,
            final(self).bodies@ == anchors_seq_s(old(self).bodies@),
    {
        let ghost s0 = self.bodies@;
        let n = self.bodies.len();
        let mut i: usize = 0;
        while i < n
            invariant
                self.config == old(self).config,
                config_wf(self.config),
                n == s0.len(),
                self.bodies@.len() == n,
                i <= n,
                bodies_wf(self.bodies@),
                forall|k: int|
                    0 <= k < i ==> #[trigger] self.bodies@[k] == (if s0[k].is_anchor {
                        with_acc_s(s0[k], v3_zero())
                    } else {
                        s0[k]
                    }),
                forall|k: int| i <= k < n ==> self.bodies@[k] == s0[k],
            decreases n - i,
        {
            let b = self.bodies[i];
            if b.is_anchor {
                self.bodies[i] = Body { acceleration: Vec3::zero(), ..b };
            }
            i += 1;
        }
        proof {
            assert(self.bodies@ =~= anchors_seq_s(s0));
        }
    }

    /// Accumulates the central term: every non-anchor body at a
    /// non-degenerate distance from the origin is pulled toward it, with a
    /// magnitude that grows mildly with that distance.
    pub fn gravity(&mut self)
        requires
            old(self).wf(),
        ensures
            final(self).wf(),
            final(self).config == old(self).config,
            final(self).bodies@ == central_seq_s(old(self).bodies@, old(self).config),
    {
        let ghost s0 = self.bodies@;
        let ghost c = self.config;
        let n = self.bodies.len();
        let mut i: usize = 0;
        while i < n
            invariant
                self.config == c,
                c == old(self).config,
                config_wf(c),
                n == s0.len(),
                self.bodies@.len() == n,
                i <= n,
                bodies_wf(self.bodies@),
                forall|k: int|
                    0 <= k < i ==> #[trigger] self.bodies@[k] == with_acc_s(
                        s0[k],
                        central_acc_s(s0[k], c),
                    ),
                forall|k: int| i <= k < n ==> self.bodies@[k] == s0[k],
            decreases n - i,
        {
            let b = self.bodies[i];
            if b.is_anchor {
                proof {
                    lemma_with_acc_self(b);
                }
            } else {
                let d = vlen(b.position);
                if d < self.config.min_distance {
                    proof {
                        lemma_with_acc_self(b);
                    }
                } else {
                    let q = div_fix(d, self.config.central_scale);
                    let mg = add_fix(mul_fix(self.config.gravity, b.mass), mul_fix(q, q));
                    let u = Vec3::new(
                        div_fix(b.position.x, d),
                        div_fix(b.position.y, d),
                        div_fix(b.position.z, d),
                    );
                    let nb = Body { acceleration: vsub(b.acceleration, vscale(u, mg)), ..b };
                    self.bodies[i] = nb;
                    proof {
                        assert(nb == with_acc_s(b, central_acc_s(b, c)));
                    }
                }
            }
            i += 1;
        }
        proof {
            assert(self.bodies@ =~= central_seq_s(s0, c));
        }
    }

    /// Advances every position by the damped two-position update, records
    /// the old position as the previous one, and resets every accumulator.
    /// Anchors stay exactly in place.
    pub fn integrate(&mut self, dt: i128)
        requires
            old(self).wf(),
            0 < dt <= LIMIT,
        ensures
            final(self).wf(),
            final(self).config == old(self).config,
            final(self).bodies@ == integrate_seq_s(
                old(self).bodies@,
                old(self).config.damping as int,
                dt as int,
            ),
    {
        let ghost s0 = self.bodies@;
        let ghost c = self.config;
        let dt2 = mul_fix(dt, dt);
        let damp: i128 = SCALE - self.config.damping;
        let n = self.bodies.len();
        let mut i: usize = 0;
        while i < n
            invariant
                self.config == c,
                c == old(self).config,
                config_wf(c),
                n == s0.len(),
                self.bodies@.len() == n,
                i <= n,
                damp == SCALE - c.damping,
                dt2 == fmul_s(dt as int, dt as int),
                0 < dt <= LIMIT,
                bodies_wf(self.bodies@),
                forall|k: int|
                    0 <= k < i ==> #[trigger] self.bodies@[k] == integrate_body_s(
                        s0[k],
                        c.damping as int,
                        dt as int,
                    ),
                forall|k: int| i <= k < n ==> self.bodies@[k] == s0[k],
            decreases n - i,
        {
            let b = self.bodies[i];
            if b.is_anchor {
                self.bodies[i] = Body { acceleration: Vec3::zero(), ..b };
            } else {
                let moved = vscale(vsub(b.position, b.previous_position), damp);
                let shift = vscale(b.acceleration, dt2);
                let newpos = vadd(vadd(b.position, moved), shift);
                let nb = Body {
                    position: newpos,
                    previous_position: b.position,
                    acceleration: Vec3::zero(),
                    ..b
                };
                self.bodies[i] = nb;
                proof {
                    assert(newpos@ == integrate_pos_s(b, c.damping as int, dt as int));
                    assert(nb == integrate_body_s(b, c.damping as int, dt as int));
                }
            }
            i += 1;
        }
        proof {
            assert(self.bodies@ =~= integrate_seq_s(s0, c.damping as int, dt as int));
        }
    }

    /// Advances the entire simulation by one fixed step: clear the
    /// accumulators, accumulate the pairwise term over every unordered
    /// pair, force anchor accumulators to zero, accumulate the central term
    /// if it is active, then integrate.
    pub fn tick(&mut self, dt: i128)
        requires
            old(self).wf(),
            0 < dt <= LIMIT,
        ensures
            final(self).wf(),
            final(self).config == old(self).config,
            final(self).bodies@.len() == old(self).bodies@.len(),
            final(self).bodies@ == tick_seq_s(old(self).bodies@, old(self).config, dt as int),
            forall|k: int|
                0 <= k < old(self).bodies@.len() && old(self).bodies@[k].is_anchor
                    ==> final(self).bodies@[k].position == old(self).bodies@[k].position
                    && final(self).bodies@[k].previous_position
                    == old(self).bodies@[k].previous_position,
            forall|k: int|
                0 <= k < old(self).bodies@.len() ==> final(self).bodies@[k].acceleration@
                    == v3_zero(),
            forall|k: int|
                0 <= k < old(self).bodies@.len()
                    ==> final(self).bodies@[k].mass == old(self).bodies@[k].mass
                    && final(self).bodies@[k].radius == old(self).bodies@[k].radius
                    && final(self).bodies@[k].is_anchor == old(self).bodies@[k].is_anchor,
    {
        let ghost s = self.bodies@;
        let ghost c = self.config;
        self.clear_accelerations();
        self.pairwise_forces();
        self.zero_anchor_accelerations();
        if self.config.central_force {
            self.gravity();
        }
        self.integrate(dt);
        proof {
            let cleared = clear_accs_seq_s(s);
            let paired = pairwise_seq_s(cleared, c);
            let anchored = anchors_seq_s(paired);
            let pulled = if c.central_force {
                central_seq_s(anchored, c)
            } else {
                anchored
            };
            assert(self.bodies@ == integrate_seq_s(pulled, c.damping as int, dt as int));
            assert(self.bodies@ == tick_seq_s(s, c, dt as int));
            assert forall|k: int| 0 <= k < s.len() implies {
                &&& (s[k].is_anchor ==> self.bodies@[k].position == s[k].position
                    && self.bodies@[k].previous_position == s[k].previous_position)
                &&& self.bodies@[k].acceleration@ == v3_zero()
                &&& self.bodies@[k].mass == s[k].mass
                &&& self.bodies@[k].radius == s[k].radius
                &&& self.bodies@[k].is_anchor == s[k].is_anchor
            } by {
                assert(cleared[k] == with_acc_s(s[k], v3_zero()));
                assert(paired[k] == with_acc_s(cleared[k], pairwise_acc_s(cleared, c, k)));
                assert(anchored[k] == (if paired[k].is_anchor {
                    with_acc_s(paired[k], v3_zero())
                } else {
                    paired[k]
                }));
                if c.central_force {
                    assert(pulled[k] == with_acc_s(anchored[k], central_acc_s(anchored[k], c)));
                }
                assert(self.bodies@[k] == integrate_body_s(pulled[k], c.damping as int, dt as int));
            }
        }
    }
}

} // verus!
