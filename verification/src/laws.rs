//! Global properties of the force model and integrator, proved once here.

use crate::body::{body_wf, Body};
use crate::fixed::{
    fadd_s, fdiv_s, fmul_s, fsub_s, lemma_clamp_bounds, lemma_fdiv_nonneg, lemma_fmul_commutes,
    lemma_fmul_contracts, lemma_fmul_nonneg, lemma_fmul_sign, lemma_fmul_square_pos,
    lemma_fmul_zero, lemma_sqrt_s_unique, LIMIT, SCALE,
};
use crate::sim::{
    acc_after_s, anchors_seq_s, apply_contrib_s, bodies_wf, central_acc_s, central_seq_s,
    clear_accs_seq_s, config_wf, first_apply_s, integrate_body_s, integrate_pos_s,
    integrate_seq_s, lemma_pair_skip_congruence, other_index_s, pair_delta_s, pair_dist_s,
    pair_mag_s, pair_skip_s, pair_unit_s, pairwise_acc_s, pairwise_seq_s, same_geometry,
    scaled_dist_s, second_apply_s, tick_seq_s, with_acc_s, ForcePolicy, SimConfig,
};
use crate::vec3::{len2_s, len_s, v3_zero, vadd_s, vneg_s, vscale_s, vsub_s, V3};
use vstd::arithmetic::div_mod::lemma_div_of0;
use vstd::prelude::*;

verus! {

/// Squared distance between two model vectors, without saturation: the
/// per-body kinetic-energy proxy when taken of a position and the previous
/// position.
pub open spec fn displacement2_s(p: V3, q: V3) -> int {
    (p.x - q.x) * (p.x - q.x) + (p.y - q.y) * (p.y - q.y) + (p.z - q.z) * (p.z - q.z)
}

/// For a pair that is not skipped, both pairwise magnitudes are nonnegative.
proof fn lemma_pair_mag_nonneg(a: Body, b: Body, c: SimConfig)
    requires
        body_wf(a),
        body_wf(b),
        config_wf(c),
        !pair_skip_s(a, b, c),
    ensures
        pair_mag_s(a.mass as int, a, b, c) >= 0,
        pair_mag_s(b.mass as int, a, b, c) >= 0,
{
    match c.policy {
        ForcePolicy::Repulsion => {
            let sd = scaled_dist_s(a, b);
            lemma_fmul_square_pos(sd);
            let sd2 = fmul_s(sd, sd);
            lemma_fmul_nonneg(c.repulsion as int, a.mass as int);
            lemma_fmul_nonneg(c.repulsion as int, b.mass as int);
            lemma_fdiv_nonneg(fmul_s(c.repulsion as int, a.mass as int), sd2);
            lemma_fdiv_nonneg(fmul_s(c.repulsion as int, b.mass as int), sd2);
        },
        ForcePolicy::Attraction => {
            let d = pair_dist_s(a, b);
            lemma_fmul_square_pos(d);
            let d2 = fmul_s(d, d);
            lemma_fdiv_nonneg(c.gravity as int, d2);
            let base = fdiv_s(c.gravity as int, d2);
            lemma_fmul_nonneg(base, a.mass as int);
            lemma_fmul_nonneg(base, b.mass as int);
        },
    }
}

/// The analogue of Newton's third law for the pairwise term: starting from
/// cleared accumulators, the contribution onto the first body of a pair and
/// the contribution onto the second point in opposite directions component
/// by component, and for equal masses they are exact negatives of each
/// other.
pub proof fn law_pairwise_opposition(a: Body, b: Body, c: SimConfig)
    requires
        body_wf(a),
        body_wf(b),
        config_wf(c),
    ensures
        first_apply_s(a, b, v3_zero(), c).x * second_apply_s(a, b, v3_zero(), c).x <= 0,
        first_apply_s(a, b, v3_zero(), c).y * second_apply_s(a, b, v3_zero(), c).y <= 0,
        first_apply_s(a, b, v3_zero(), c).z * second_apply_s(a, b, v3_zero(), c).z <= 0,
        a.mass == b.mass ==> first_apply_s(a, b, v3_zero(), c) == vneg_s(
            second_apply_s(a, b, v3_zero(), c),
        ),
{
    let z = v3_zero();
    let na = first_apply_s(a, b, z, c);
    let nb = second_apply_s(a, b, z, c);
    if pair_skip_s(a, b, c) {
        assert(na == z && nb == z);
    } else {
        lemma_pair_mag_nonneg(a, b, c);
        let u = pair_unit_s(a, b);
        let mi = pair_mag_s(b.mass as int, a, b, c);
        let mj = pair_mag_s(a.mass as int, a, b, c);
        let wi = vscale_s(u, mi);
        let wj = vscale_s(u, mj);
        lemma_fmul_sign(u.x, mi);
        lemma_fmul_sign(u.y, mi);
        lemma_fmul_sign(u.z, mi);
        lemma_fmul_sign(u.x, mj);
        lemma_fmul_sign(u.y, mj);
        lemma_fmul_sign(u.z, mj);
        assert(-LIMIT <= wi.x <= LIMIT && -LIMIT <= wi.y <= LIMIT && -LIMIT <= wi.z <= LIMIT);
        assert(-LIMIT <= wj.x <= LIMIT && -LIMIT <= wj.y <= LIMIT && -LIMIT <= wj.z <= LIMIT);
        assert(wi.x * wj.x >= 0 && wi.y * wj.y >= 0 && wi.z * wj.z >= 0) by (nonlinear_arith)
            requires
                (wi.x >= 0 && wj.x >= 0) || (wi.x <= 0 && wj.x <= 0),
                (wi.y >= 0 && wj.y >= 0) || (wi.y <= 0 && wj.y <= 0),
                (wi.z >= 0 && wj.z >= 0) || (wi.z <= 0 && wj.z <= 0),
        ;
        match c.policy {
            ForcePolicy::Repulsion => {
                assert(na == vsub_s(z, wi));
                assert(na.x == -wi.x && na.y == -wi.y && na.z == -wi.z);
                assert(nb == vadd_s(z, wj));
                assert(nb.x == wj.x && nb.y == wj.y && nb.z == wj.z);
            },
            ForcePolicy::Attraction => {
                assert(na == vadd_s(z, wi));
                assert(na.x == wi.x && na.y == wi.y && na.z == wi.z);
                assert(nb == vsub_s(z, wj));
                assert(nb.x == -wj.x && nb.y == -wj.y && nb.z == -wj.z);
            },
        }
        assert(na.x * nb.x <= 0 && na.y * nb.y <= 0 && na.z * nb.z <= 0) by (nonlinear_arith)
            requires
                wi.x * wj.x >= 0,
                wi.y * wj.y >= 0,
                wi.z * wj.z >= 0,
                (na.x == -wi.x && nb.x == wj.x) || (na.x == wi.x && nb.x == -wj.x),
                (na.y == -wi.y && nb.y == wj.y) || (na.y == wi.y && nb.y == -wj.y),
                (na.z == -wi.z && nb.z == wj.z) || (na.z == wi.z && nb.z == -wj.z),
        ;
        if a.mass == b.mass {
            assert(mi == mj);
            assert(na == vneg_s(nb));
        }
    }
}

/// The momentum law on an isolated two-body system: one pairwise pass over
/// cleared accumulators gives the two bodies accelerations that oppose each
/// other component by component, and are exact negatives for equal masses.
pub proof fn law_momentum_two_bodies(s: Seq<Body>, c: SimConfig)
    requires
        s.len() == 2,
        body_wf(s[0]),
        body_wf(s[1]),
        config_wf(c),
        s[0].acceleration@ == v3_zero(),
        s[1].acceleration@ == v3_zero(),
    ensures
        pairwise_acc_s(s, c, 0) == first_apply_s(s[0], s[1], v3_zero(), c),
        pairwise_acc_s(s, c, 1) == second_apply_s(s[0], s[1], v3_zero(), c),
        pairwise_acc_s(s, c, 0).x * pairwise_acc_s(s, c, 1).x <= 0,
        pairwise_acc_s(s, c, 0).y * pairwise_acc_s(s, c, 1).y <= 0,
        pairwise_acc_s(s, c, 0).z * pairwise_acc_s(s, c, 1).z <= 0,
        s[0].mass == s[1].mass ==> pairwise_acc_s(s, c, 0) == vneg_s(pairwise_acc_s(s, c, 1)),
{
    assert(other_index_s(0, 0) == 1);
    assert(other_index_s(1, 0) == 0);
    assert(acc_after_s(s, c, 0, 0) == v3_zero());
    assert(acc_after_s(s, c, 1, 0) == v3_zero());
    assert(pairwise_acc_s(s, c, 0) == apply_contrib_s(s, c, 0, 1, v3_zero()));
    assert(pairwise_acc_s(s, c, 1) == apply_contrib_s(s, c, 1, 0, v3_zero()));
    law_pairwise_opposition(s[0], s[1], c);
}

/// Two bodies at identical coordinates exert no force on each other: the
/// degenerate pair is skipped and both accumulators pass through unchanged.
pub proof fn law_coincident_pair_inert(a: Body, b: Body, acc_a: V3, acc_b: V3, c: SimConfig)
    requires
        a.position == b.position,
        body_wf(a),
        body_wf(b),
        config_wf(c),
    ensures
        first_apply_s(a, b, acc_a, c) == acc_a,
        second_apply_s(a, b, acc_b, c) == acc_b,
{
    let delta = pair_delta_s(a, b);
    assert(delta.x == 0 && delta.y == 0 && delta.z == 0);
    assert(len2_s(delta) == 0);
    lemma_sqrt_s_unique(0, 0);
    assert(pair_dist_s(a, b) == 0);
    match c.policy {
        ForcePolicy::Repulsion => {
            lemma_div_of0((a.radius + b.radius) as int);
            assert(scaled_dist_s(a, b) == 0);
            assert(pair_skip_s(a, b, c));
        },
        ForcePolicy::Attraction => {
            assert(pair_skip_s(a, b, c));
        },
    }
}

/// A body exactly at the origin receives no central force: the degenerate
/// distance is skipped and the accumulator passes through unchanged.
pub proof fn law_central_origin_inert(b: Body, c: SimConfig)
    requires
        b.position@ == v3_zero(),
        config_wf(c),
    ensures
        crate::sim::central_acc_s(b, c) == b.acceleration@,
{
    assert(b.position@.x == 0 && b.position@.y == 0 && b.position@.z == 0);
    assert(len2_s(b.position@) == 0);
    lemma_sqrt_s_unique(0, 0);
    assert(len_s(b.position@) == 0);
}

/// One damped component of the position update moves by no more than the
/// previous displacement of that component.
proof fn lemma_damped_component(p: int, q: int, k: int)
    requires
        -LIMIT <= p <= LIMIT,
        0 <= k <= SCALE,
    ensures
        ({
            let r = fadd_s(fadd_s(p, fmul_s(fsub_s(p, q), k)), 0);
            (r - p) * (r - p) <= (p - q) * (p - q)
        }),
{
    let d = fsub_s(p, q);
    let m = fmul_s(d, k);
    let r0 = fadd_s(p, m);
    let r = fadd_s(r0, 0);
    lemma_fmul_commutes(d, k);
    lemma_fmul_contracts(k, d);
    assert(if d >= 0 {
        0 <= m <= d
    } else {
        d <= m <= 0
    });
    lemma_clamp_bounds(p + m);
    assert(r == r0);
    assert(if p - q >= 0 {
        -(p - q) <= r - p <= p - q
    } else {
        p - q <= r - p <= -(p - q)
    });
    assert((r - p) * (r - p) <= (p - q) * (p - q)) by (nonlinear_arith)
        requires
            (p - q >= 0 && -(p - q) <= r - p <= p - q) || (p - q < 0 && p - q <= r - p <= -(p
                - q)),
    ;
}

/// Damped energy dissipation: a body carrying no accumulated acceleration
/// never gains kinetic energy from an integration step, for any damping up
/// to one whole unit; its squared displacement per tick is non-increasing.
pub proof fn law_damped_displacement(b: Body, damping: int, dt: int)
    requires
        body_wf(b),
        b.acceleration@ == v3_zero(),
        0 <= damping <= SCALE,
    ensures
        displacement2_s(integrate_pos_s(b, damping, dt), b.position@) <= displacement2_s(
            b.position@,
            b.previous_position@,
        ),
{
    let p = b.position@;
    let q = b.previous_position@;
    let k = SCALE - damping;
    let dt2 = fmul_s(dt, dt);
    lemma_fmul_zero(dt2);
    assert(vscale_s(b.acceleration@, dt2).x == 0);
    assert(vscale_s(b.acceleration@, dt2).y == 0);
    assert(vscale_s(b.acceleration@, dt2).z == 0);
    let r = integrate_pos_s(b, damping, dt);
    assert(r.x == fadd_s(fadd_s(p.x, fmul_s(fsub_s(p.x, q.x), k)), 0));
    assert(r.y == fadd_s(fadd_s(p.y, fmul_s(fsub_s(p.y, q.y), k)), 0));
    assert(r.z == fadd_s(fadd_s(p.z, fmul_s(fsub_s(p.z, q.z), k)), 0));
    lemma_damped_component(p.x, q.x, k);
    lemma_damped_component(p.y, q.y, k);
    lemma_damped_component(p.z, q.z, k);
}

/// Summed kinetic proxy of the first `m` bodies of a population.
pub open spec fn proxy_prefix_s(s: Seq<Body>, m: nat) -> int
    decreases m,
{
    if m == 0 {
        0
    } else {
        proxy_prefix_s(s, (m - 1) as nat) + displacement2_s(
            s[m - 1].position@,
            s[m - 1].previous_position@,
        )
    }
}

/// Total kinetic-energy proxy of a population: the sum over all bodies of
/// the squared displacement of the last tick.
pub open spec fn total_proxy_s(s: Seq<Body>) -> int {
    proxy_prefix_s(s, s.len())
}

/// Summing a body-wise bound gives a population-wise bound.
proof fn lemma_proxy_prefix_mono(s: Seq<Body>, t: Seq<Body>, m: nat)
    requires
        m <= s.len(),
        s.len() == t.len(),
        forall|k: int|
            0 <= k < m ==> displacement2_s(
                #[trigger] t[k].position@,
                t[k].previous_position@,
            ) <= displacement2_s(s[k].position@, s[k].previous_position@),
    ensures
        proxy_prefix_s(t, m) <= proxy_prefix_s(s, m),
    decreases m,
{
    if m > 0 {
        lemma_proxy_prefix_mono(s, t, (m - 1) as nat);
    }
}

/// When every pair of a population is skipped, the pairwise pass leaves
/// every accumulator untouched.
proof fn lemma_acc_after_all_skip(s: Seq<Body>, c: SimConfig, k: int, m: nat)
    requires
        0 <= k < s.len(),
        m < s.len(),
        forall|i: int, j: int| 0 <= i < j < s.len() ==> pair_skip_s(#[trigger] s[i], #[trigger] s[j], c),
    ensures
        acc_after_s(s, c, k, m) == s[k].acceleration@,
    decreases m,
{
    if m > 0 {
        lemma_acc_after_all_skip(s, c, k, (m - 1) as nat);
        let o = other_index_s(k, m - 1);
        if o < k {
            assert(pair_skip_s(s[o], s[k], c));
        } else {
            assert(pair_skip_s(s[k], s[o], c));
        }
    }
}

/// Damped energy dissipation over a whole tick: when no force term acts —
/// every pair is beyond the cutoff or degenerate, and the central term is
/// off or inert for every body — the total kinetic-energy proxy of the
/// population never increases.
pub proof fn law_damped_tick_no_forces(s: Seq<Body>, c: SimConfig, dt: int)
    requires
        bodies_wf(s),
        config_wf(c),
        forall|i: int, j: int| 0 <= i < j < s.len() ==> pair_skip_s(#[trigger] s[i], #[trigger] s[j], c),
        c.central_force ==> forall|k: int|
            0 <= k < s.len() ==> (#[trigger] s[k]).is_anchor || len_s(s[k].position@)
                < c.min_distance,
    ensures
        total_proxy_s(tick_seq_s(s, c, dt)) <= total_proxy_s(s),
{
    let n = s.len();
    let cleared = clear_accs_seq_s(s);
    let paired = pairwise_seq_s(cleared, c);
    let anchored = anchors_seq_s(paired);
    let pulled = if c.central_force {
        central_seq_s(anchored, c)
    } else {
        anchored
    };
    let out = integrate_seq_s(pulled, c.damping as int, dt);
    assert(out == tick_seq_s(s, c, dt));
    assert forall|i: int, j: int| 0 <= i < j < n implies pair_skip_s(
        #[trigger] cleared[i],
        #[trigger] cleared[j],
        c,
    ) by {
        assert(cleared[i] == with_acc_s(s[i], v3_zero()));
        assert(cleared[j] == with_acc_s(s[j], v3_zero()));
        lemma_pair_skip_congruence(cleared[i], cleared[j], s[i], s[j], c);
    }
    assert forall|k: int| 0 <= k < n implies same_geometry(#[trigger] pulled[k], s[k])
        && pulled[k].acceleration@ == v3_zero() by {
        assert(cleared[k] == with_acc_s(s[k], v3_zero()));
        lemma_acc_after_all_skip(cleared, c, k, (n - 1) as nat);
        assert(pairwise_acc_s(cleared, c, k) == v3_zero());
        assert(paired[k] == with_acc_s(cleared[k], v3_zero()));
        assert(anchored[k] == (if paired[k].is_anchor {
            with_acc_s(paired[k], v3_zero())
        } else {
            paired[k]
        }));
        if c.central_force {
            assert(pulled[k] == with_acc_s(anchored[k], central_acc_s(anchored[k], c)));
            assert(len_s(anchored[k].position@) == len_s(s[k].position@));
            assert(central_acc_s(anchored[k], c) == anchored[k].acceleration@);
        }
    }
    assert forall|k: int| 0 <= k < n implies displacement2_s(
        #[trigger] out[k].position@,
        out[k].previous_position@,
    ) <= displacement2_s(s[k].position@, s[k].previous_position@) by {
        assert(out[k] == integrate_body_s(pulled[k], c.damping as int, dt));
        assert(body_wf(s[k]));
        assert(body_wf(pulled[k]));
        if pulled[k].is_anchor {
            assert(out[k].position == pulled[k].position);
            assert(out[k].previous_position == pulled[k].previous_position);
        } else {
            law_damped_displacement(pulled[k], c.damping as int, dt);
            assert(out[k].position@ == integrate_pos_s(pulled[k], c.damping as int, dt));
            assert(out[k].previous_position == pulled[k].position);
        }
    }
    lemma_proxy_prefix_mono(s, out, n);
}

} // verus!
