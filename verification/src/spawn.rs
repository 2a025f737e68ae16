//! Randomized population setup: a seeded generator drives the creation of
//! bodies with random radii, positions and initial velocities.

use crate::body::{body_wf, Body};
use crate::fixed::{
    cbrt_fix, fmul_s, lemma_fdiv_unit, lemma_fmul_mag, lemma_fmul_mono, lemma_fmul_nonneg,
    lemma_sqrt_s_props, mul_fix, tdiv_s, LIMIT, SCALE,
};
use crate::sim::{new_body_s, Simulation};
use crate::vec3::{len2_s, v3_zero, Vec3};
use vstd::prelude::*;

verus! {

/// Smallest spawned radius: half a unit.
pub const RADIUS_MIN: i128 = 500_000;

/// Upper bound (excluded) of a spawned radius: two units.
pub const RADIUS_MAX: i128 = 2_000_000;

/// Mass density coefficient: a tenth of a unit per cubic radius unit.
pub const BODY_DENSITY: i128 = 100_000;

/// Radius of the spawn sphere: thirty units.
pub const SPAWN_RADIUS: i128 = 30_000_000;

/// Magnitude bound (excluded) of each initial velocity component.
pub const SPAWN_SPEED: i128 = 500_000;

/// Lower bound of the radial placement sample: a fifth of a unit, so spawn
/// positions thin out away from the origin without hugging it.
pub const RADIAL_SAMPLE_MIN: i128 = 200_000;

/// Mass of a spawned body: its cubed radius times the density coefficient.
pub open spec fn mass_from_radius_s(r: int) -> int {
    fmul_s(fmul_s(fmul_s(r, r), r), BODY_DENSITY as int)
}

/// What holds of every spawned body, whatever the generator produced.
pub open spec fn spawned_body_ok(b: Body) -> bool {
    &&& body_wf(b)
    &&& !b.is_anchor
    &&& RADIUS_MIN <= b.radius < RADIUS_MAX
    &&& b.mass as int == mass_from_radius_s(b.radius as int)
    &&& b.acceleration@ == v3_zero()
    &&& -SPAWN_RADIUS <= b.position.x <= SPAWN_RADIUS
    &&& -SPAWN_RADIUS <= b.position.y <= SPAWN_RADIUS
    &&& -SPAWN_RADIUS <= b.position.z <= SPAWN_RADIUS
}

/// rand's standard generator, declared so that it can be carried through
/// signatures; its values are opaque here.
#[verifier::external_type_specification]
#[verifier::external_body]
pub struct ExStdRng(rand::rngs::StdRng);

/// Relies on rand's `SeedableRng::seed_from_u64` for `StdRng`: builds a
/// generator from a seed. Nothing is assumed of the stream it produces.
#[verifier::external_body]
pub fn rng_from_seed(seed: u64) -> rand::rngs::StdRng {
    <rand::rngs::StdRng as rand::SeedableRng>::seed_from_u64(seed)
}

/// Relies on rand's `RngExt::random_range` over a half-open `i128` range:
/// the result lies within the range, and the call panics only on an empty
/// range, which the precondition excludes.
#[verifier::external_body]
fn random_in_range(rng: &mut rand::rngs::StdRng, lo: i128, hi: i128) -> (r: i128)
    requires
        lo < hi,
    ensures
        lo <= r < hi,
{
    rand::RngExt::random_range(rng, lo..hi)
}

/// Fills the simulation with `count` randomized bodies: radius uniform in
/// its range, mass derived from the radius, position inside the spawn
/// sphere with a bias toward the origin, and a small random initial
/// velocity. Every spawned body is well-formed and starts with a cleared
/// accumulator, whatever values the generator produced.
pub fn generate_bodies(
    sim: &mut Simulation,
    rng: &mut rand::rngs::StdRng,
    count: usize,
    dt: i128,
)
    requires
        old(sim).wf(),
        old(sim).bodies@.len() + count <= usize::MAX,
        0 < dt <= LIMIT,
    ensures
        final(sim).wf(),
        final(sim).config == old(sim).config,
        final(sim).bodies@.len() == old(sim).bodies@.len() + count,
        forall|k: int|
            0 <= k < old(sim).bodies@.len() ==> final(sim).bodies@[k] == old(sim).bodies@[k],
        forall|k: int|
            old(sim).bodies@.len() <= k < final(sim).bodies@.len() ==> spawned_body_ok(
                #[trigger] final(sim).bodies@[k],
            ),
{
    let mut it: usize = 0;
    while it < count
        invariant
            sim.wf(),
            sim.config == old(sim).config,
            it <= count,
            old(sim).bodies@.len() + count <= usize::MAX,
            0 < dt <= LIMIT,
            sim.bodies@.len() == old(sim).bodies@.len() + it,
            forall|k: int|
                0 <= k < old(sim).bodies@.len() ==> sim.bodies@[k] == old(sim).bodies@[k],
            forall|k: int|
                old(sim).bodies@.len() <= k < sim.bodies@.len() ==> spawned_body_ok(
                    #[trigger] sim.bodies@[k],
                ),
        decreases count - it,
    {
        let radius = random_in_range(rng, RADIUS_MIN, RADIUS_MAX);
        let squared = mul_fix(radius, radius);
        let cubed = mul_fix(squared, radius);
        let mass = mul_fix(cubed, BODY_DENSITY);
        proof {
            lemma_fmul_mono(radius as int, radius as int, RADIUS_MIN as int, RADIUS_MIN as int);
            assert(fmul_s(500_000, 500_000) == 250_000);
            lemma_fmul_mono(squared as int, radius as int, 250_000, RADIUS_MIN as int);
            assert(fmul_s(250_000, 500_000) == 125_000);
            lemma_fmul_mono(cubed as int, BODY_DENSITY as int, 125_000, BODY_DENSITY as int);
            assert(fmul_s(125_000, 100_000) == 12_500);
            assert(mass >= 12_500);
        }
        let dx = random_in_range(rng, -SCALE, SCALE);
        let dy = random_in_range(rng, -SCALE, SCALE);
        let dz = random_in_range(rng, -SCALE, SCALE);
        let d = Vec3::new(dx, dy, dz);
        let dl = crate::vec3::vlen(d);
        let unit = if dl == 0 {
            Vec3::new(SCALE, 0, 0)
        } else {
            proof {
                assert(len2_s(d@) >= d@.x * d@.x && len2_s(d@) >= d@.y * d@.y && len2_s(d@)
                    >= d@.z * d@.z && len2_s(d@) >= 0) by (nonlinear_arith);
                lemma_sqrt_s_props(len2_s(d@));
                assert(-dl <= d@.x <= dl && -dl <= d@.y <= dl && -dl <= d@.z <= dl)
                    by (nonlinear_arith)
                    requires
                        d@.x * d@.x <= len2_s(d@),
                        d@.y * d@.y <= len2_s(d@),
                        d@.z * d@.z <= len2_s(d@),
                        len2_s(d@) < (dl + 1) * (dl + 1),
                        dl >= 1,
                ;
                lemma_fdiv_unit(d@.x, dl as int);
                lemma_fdiv_unit(d@.y, dl as int);
                lemma_fdiv_unit(d@.z, dl as int);
            }
            Vec3::new(
                crate::fixed::div_fix(d.x, dl),
                crate::fixed::div_fix(d.y, dl),
                crate::fixed::div_fix(d.z, dl),
            )
        };
        proof {
            assert(-SCALE <= unit@.x <= SCALE && -SCALE <= unit@.y <= SCALE && -SCALE <= unit@.z
                <= SCALE);
        }
        let radial = random_in_range(rng, RADIAL_SAMPLE_MIN, SCALE);
        let cb = cbrt_fix(radial);
        let factor = mul_fix(cb, SPAWN_RADIUS);
        proof {
            lemma_fmul_nonneg(cb as int, SPAWN_RADIUS as int);
            lemma_fmul_mono(SCALE as int, SPAWN_RADIUS as int, cb as int, SPAWN_RADIUS as int);
            assert(fmul_s(1_000_000, 30_000_000) == 30_000_000);
            assert(0 <= factor <= SPAWN_RADIUS);
        }
        let pos = crate::vec3::vscale(unit, factor);
        proof {
            lemma_fmul_mag(unit@.x, factor as int, SCALE as int, SPAWN_RADIUS as int);
            lemma_fmul_mag(unit@.y, factor as int, SCALE as int, SPAWN_RADIUS as int);
            lemma_fmul_mag(unit@.z, factor as int, SCALE as int, SPAWN_RADIUS as int);
            assert(tdiv_s((SCALE as int) * (SPAWN_RADIUS as int), SCALE as int) == SPAWN_RADIUS);
            assert(-SPAWN_RADIUS <= pos@.x <= SPAWN_RADIUS && -SPAWN_RADIUS <= pos@.y
                <= SPAWN_RADIUS && -SPAWN_RADIUS <= pos@.z <= SPAWN_RADIUS);
        }
        let vx = random_in_range(rng, -SPAWN_SPEED, SPAWN_SPEED);
        let vy = random_in_range(rng, -SPAWN_SPEED, SPAWN_SPEED);
        let vz = random_in_range(rng, -SPAWN_SPEED, SPAWN_SPEED);
        let vel = Vec3::new(vx, vy, vz);
        let ghost expected = new_body_s(mass, radius, pos, vel, false, dt);
        match sim.create_body(mass, radius, pos, vel, false, dt) {
            Ok(_) => {
                proof {
                    assert(sim.bodies@.last() == expected);
                    assert(body_wf(expected));
                    assert(spawned_body_ok(expected));
                }
            },
            Err(_) => {
                proof {
                    assert(false);
                }
            },
        }
        it += 1;
    }
}

} // verus!
