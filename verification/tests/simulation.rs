//! Scenario tests of the force model, the integrator, and the whole tick.

use nbody::body::SimError;
use nbody::sim::{ForcePolicy, SimConfig, Simulation};
use nbody::vec3::Vec3;

/// The fixed timestep of the stock setup: 1/64 of a second.
const DT: i128 = 15_625;

fn repulsion_config(repulsion: i128, damping: i128, central: bool) -> SimConfig {
    SimConfig {
        policy: ForcePolicy::Repulsion,
        central_force: central,
        gravity: 3_000_000,
        repulsion,
        damping,
        force_cutoff: 15_000_000,
        min_distance: 100_000,
        central_scale: 10_000_000,
    }
}

fn two_body_pair(cfg: SimConfig, mass_a: i128, mass_b: i128) -> Simulation {
    let mut sim = Simulation::new(cfg);
    sim.create_body(mass_a, 1_000_000, Vec3::new(-5_000_000, 0, 0), Vec3::zero(), false, 20_000)
        .unwrap();
    sim.create_body(mass_b, 1_000_000, Vec3::new(5_000_000, 0, 0), Vec3::zero(), false, 20_000)
        .unwrap();
    sim
}

#[test]
fn concrete_two_body_accelerations() {
    // Two unit-mass, unit-radius bodies at x = -5 and x = +5, repulsion
    // constant 2: scaled distance 10/2 = 5, magnitude 2/25 = 0.08 toward
    // the outside, applied along x only.
    let mut sim = two_body_pair(repulsion_config(2_000_000, 0, false), 1_000_000, 1_000_000);
    sim.clear_accelerations();
    sim.pairwise_forces();
    assert_eq!(sim.acceleration(0), Vec3::new(-80_000, 0, 0));
    assert_eq!(sim.acceleration(1), Vec3::new(80_000, 0, 0));
}

#[test]
fn concrete_two_body_tick() {
    // Same setup, one full tick with dt = 0.02 and no damping: since the
    // bodies start at rest, each moves outward by exactly
    // acceleration * dt^2 = 0.08 * 0.0004 = 3.2e-5.
    let mut sim = two_body_pair(repulsion_config(2_000_000, 0, false), 1_000_000, 1_000_000);
    sim.tick(20_000);
    assert_eq!(sim.position(0), Vec3::new(-5_000_032, 0, 0));
    assert_eq!(sim.position(1), Vec3::new(5_000_032, 0, 0));
    assert_eq!(sim.previous_position(0), Vec3::new(-5_000_000, 0, 0));
    assert_eq!(sim.previous_position(1), Vec3::new(5_000_000, 0, 0));
}

#[test]
fn momentum_opposition_equal_masses() {
    // Equal masses: the two pairwise accelerations are exact negatives.
    let mut sim = two_body_pair(repulsion_config(2_000_000, 0, false), 1_000_000, 1_000_000);
    sim.clear_accelerations();
    sim.pairwise_forces();
    let a = sim.acceleration(0);
    let b = sim.acceleration(1);
    assert_eq!((a.x, a.y, a.z), (-b.x, -b.y, -b.z));
}

#[test]
fn momentum_opposition_weighted() {
    // Masses 1 and 3: acceleration times own mass balances exactly in this
    // configuration (the momentum transfer cancels).
    let mut sim = two_body_pair(repulsion_config(2_000_000, 0, false), 1_000_000, 3_000_000);
    sim.clear_accelerations();
    sim.pairwise_forces();
    let a = sim.acceleration(0);
    let b = sim.acceleration(1);
    // acc_0 = -(2 * 3 / 25) = -0.24; acc_1 = +(2 * 1 / 25) = +0.08
    assert_eq!(a, Vec3::new(-240_000, 0, 0));
    assert_eq!(b, Vec3::new(80_000, 0, 0));
    // momentum-weighted sum along x: 1.0 * -0.24 + 3.0 * 0.08 == 0
    assert_eq!(1_000_000 * a.x / 1_000_000 + 3_000_000 * b.x / 1_000_000, 0);
}

#[test]
fn attraction_policy_pulls_together() {
    let cfg = SimConfig {
        policy: ForcePolicy::Attraction,
        central_force: false,
        gravity: 3_000_000,
        repulsion: 2_000_000,
        damping: 0,
        force_cutoff: 15_000_000,
        min_distance: 100_000,
        central_scale: 10_000_000,
    };
    let mut sim = two_body_pair(cfg, 1_000_000, 1_000_000);
    sim.clear_accelerations();
    sim.pairwise_forces();
    // magnitude 3 / 10^2 = 0.03, pointing inward
    assert_eq!(sim.acceleration(0), Vec3::new(30_000, 0, 0));
    assert_eq!(sim.acceleration(1), Vec3::new(-30_000, 0, 0));
}

#[test]
fn attraction_tick_pulls_inward() {
    // One tick under the attraction policy: each body moves inward by
    // exactly magnitude * dt^2 = 0.03 * 0.0004 = 1.2e-5.
    let cfg = SimConfig {
        policy: ForcePolicy::Attraction,
        central_force: false,
        gravity: 3_000_000,
        repulsion: 2_000_000,
        damping: 0,
        force_cutoff: 15_000_000,
        min_distance: 100_000,
        central_scale: 10_000_000,
    };
    let mut sim = two_body_pair(cfg, 1_000_000, 1_000_000);
    sim.tick(20_000);
    assert_eq!(sim.position(0), Vec3::new(-4_999_988, 0, 0));
    assert_eq!(sim.position(1), Vec3::new(4_999_988, 0, 0));
}

#[test]
fn anchor_accumulator_is_overridden() {
    // The pairwise pass does compute a force for an anchor; the anchor
    // override then zeroes it, leaving the other body's accumulator alone.
    let mut sim = Simulation::new(repulsion_config(2_000_000, 0, false));
    sim.create_body(1_000_000, 1_000_000, Vec3::new(-5_000_000, 0, 0), Vec3::zero(), true, DT)
        .unwrap();
    sim.create_body(1_000_000, 1_000_000, Vec3::new(5_000_000, 0, 0), Vec3::zero(), false, DT)
        .unwrap();
    sim.clear_accelerations();
    sim.pairwise_forces();
    assert_eq!(sim.acceleration(0), Vec3::new(-80_000, 0, 0));
    sim.zero_anchor_accelerations();
    assert_eq!(sim.acceleration(0), Vec3::zero());
    assert_eq!(sim.acceleration(1), Vec3::new(80_000, 0, 0));
}

#[test]
fn central_force_magnitude() {
    // A unit-mass body ten units from the origin: magnitude is
    // 3 * 1 + (10 / 10)^2 = 4, pointing back toward the origin.
    let mut sim = Simulation::new(repulsion_config(2_000_000, 0, true));
    sim.create_body(1_000_000, 1_000_000, Vec3::new(10_000_000, 0, 0), Vec3::zero(), false, DT)
        .unwrap();
    sim.gravity();
    assert_eq!(sim.acceleration(0), Vec3::new(-4_000_000, 0, 0));
}

#[test]
fn central_force_skips_origin() {
    // A body exactly at the origin gets no central pull.
    let mut sim = Simulation::new(repulsion_config(2_000_000, 0, true));
    sim.create_body(1_000_000, 1_000_000, Vec3::zero(), Vec3::zero(), false, DT).unwrap();
    sim.gravity();
    assert_eq!(sim.acceleration(0), Vec3::zero());
    sim.tick(DT);
    assert_eq!(sim.position(0), Vec3::zero());
}

#[test]
fn coincident_bodies_exert_no_force() {
    // Two bodies at identical coordinates: the degenerate pair is skipped,
    // nothing moves, and no value degenerates.
    let mut sim = Simulation::new(repulsion_config(25_000_000, 0, false));
    let p = Vec3::new(1_000_000, 2_000_000, 3_000_000);
    sim.create_body(1_000_000, 1_000_000, p, Vec3::zero(), false, DT).unwrap();
    sim.create_body(1_000_000, 1_000_000, p, Vec3::zero(), false, DT).unwrap();
    sim.tick(DT);
    assert_eq!(sim.position(0), p);
    assert_eq!(sim.position(1), p);
    assert_eq!(sim.acceleration(0), Vec3::zero());
    assert_eq!(sim.acceleration(1), Vec3::zero());
}

#[test]
fn anchor_position_invariant() {
    // An anchor surrounded by interacting bodies does not move a single
    // raw unit over a thousand ticks.
    let mut sim = Simulation::new(repulsion_config(25_000_000, 5_000, true));
    let anchor_pos = Vec3::new(1_000_000, 2_000_000, 3_000_000);
    sim.create_body(5_000_000, 1_500_000, anchor_pos, Vec3::new(400_000, 0, 0), true, DT)
        .unwrap();
    sim.create_body(1_000_000, 800_000, Vec3::new(4_000_000, 0, 0), Vec3::new(0, 300_000, 0), false, DT)
        .unwrap();
    sim.create_body(2_000_000, 1_200_000, Vec3::new(-3_000_000, 2_000_000, 0), Vec3::new(0, 0, -200_000), false, DT)
        .unwrap();
    sim.create_body(1_500_000, 600_000, Vec3::new(0, -5_000_000, 1_000_000), Vec3::new(100_000, 0, 0), false, DT)
        .unwrap();
    for _ in 0..1000 {
        sim.tick(DT);
    }
    assert_eq!(sim.position(0), anchor_pos);
    assert_eq!(sim.previous_position(0), anchor_pos);
}

#[test]
fn accelerations_reset_after_tick() {
    // After a tick with every force term active, every accumulator is
    // exactly zero again.
    let mut sim = Simulation::new(repulsion_config(25_000_000, 5_000, true));
    sim.create_body(5_000_000, 1_500_000, Vec3::new(2_000_000, 0, 0), Vec3::zero(), true, DT)
        .unwrap();
    sim.create_body(1_000_000, 800_000, Vec3::new(4_000_000, 0, 0), Vec3::new(0, 300_000, 0), false, DT)
        .unwrap();
    sim.create_body(2_000_000, 1_200_000, Vec3::new(-3_000_000, 2_000_000, 0), Vec3::zero(), false, DT)
        .unwrap();
    sim.tick(DT);
    for h in 0..sim.body_count() {
        assert_eq!(sim.acceleration(h), Vec3::zero());
    }
}

#[test]
fn damped_energy_monotonicity() {
    // Force-free moving bodies under positive damping: the summed squared
    // per-tick displacement never increases over 500 ticks.
    let mut sim = Simulation::new(repulsion_config(25_000_000, 5_000, false));
    // Far beyond the cutoff of each other, so no pairwise force acts.
    sim.create_body(1_000_000, 500_000, Vec3::new(-500_000_000, 0, 0), Vec3::new(450_000, -200_000, 100_000), false, DT)
        .unwrap();
    sim.create_body(1_000_000, 500_000, Vec3::new(500_000_000, 0, 0), Vec3::new(-300_000, 250_000, 0), false, DT)
        .unwrap();
    let proxy = |sim: &Simulation| -> i128 {
        let mut total: i128 = 0;
        for h in 0..sim.body_count() {
            let p = sim.position(h);
            let q = sim.previous_position(h);
            total += (p.x - q.x).pow(2) + (p.y - q.y).pow(2) + (p.z - q.z).pow(2);
        }
        total
    };
    let mut last = proxy(&sim);
    assert!(last > 0);
    for _ in 0..500 {
        sim.tick(DT);
        let now = proxy(&sim);
        assert!(now <= last);
        last = now;
    }
}

#[test]
fn invalid_bodies_are_rejected() {
    let mut sim = Simulation::new(repulsion_config(25_000_000, 5_000, true));
    let r = sim.create_body(0, 1_000_000, Vec3::zero(), Vec3::zero(), false, DT);
    assert_eq!(r, Err(SimError::NonPositiveMass));
    let r = sim.create_body(-5, 1_000_000, Vec3::zero(), Vec3::zero(), false, DT);
    assert_eq!(r, Err(SimError::NonPositiveMass));
    let r = sim.create_body(1_000_000, 0, Vec3::zero(), Vec3::zero(), false, DT);
    assert_eq!(r, Err(SimError::NonPositiveRadius));
    assert_eq!(sim.body_count(), 0);
}

#[test]
fn create_body_encodes_velocity() {
    // previousPosition = position - velocity * dt, so a body created with a
    // velocity starts moving on the first tick even without forces.
    let mut sim = Simulation::new(repulsion_config(25_000_000, 0, false));
    let h = sim
        .create_body(1_000_000, 1_000_000, Vec3::new(1_000_000, 0, 0), Vec3::new(1_000_000, 0, 0), false, 1_000_000)
        .unwrap();
    // prev = 1.0 - 1.0 * 1.0 = 0
    assert_eq!(sim.previous_position(h), Vec3::zero());
    sim.tick(1_000_000);
    // undamped Verlet carries the displacement forward: 1.0 + 1.0 = 2.0
    assert_eq!(sim.position(h), Vec3::new(2_000_000, 0, 0));
    assert_eq!(sim.previous_position(h), Vec3::new(1_000_000, 0, 0));
}

#[test]
fn damping_shrinks_displacement() {
    // With damping 0.5 only half of the previous displacement is carried
    // forward.
    let mut sim = Simulation::new(repulsion_config(25_000_000, 500_000, false));
    let h = sim
        .create_body(1_000_000, 1_000_000, Vec3::new(1_000_000, 0, 0), Vec3::new(1_000_000, 0, 0), false, 1_000_000)
        .unwrap();
    sim.tick(1_000_000);
    assert_eq!(sim.position(h), Vec3::new(1_500_000, 0, 0));
}

#[test]
fn pairwise_cutoff_skips_distant_pairs() {
    // Scaled distance beyond the cutoff: no force at all.
    let mut sim = Simulation::new(repulsion_config(25_000_000, 0, false));
    sim.create_body(1_000_000, 500_000, Vec3::new(-10_000_000, 0, 0), Vec3::zero(), false, DT)
        .unwrap();
    sim.create_body(1_000_000, 500_000, Vec3::new(10_000_000, 0, 0), Vec3::zero(), false, DT)
        .unwrap();
    // scaled distance = 20 / 1.0 = 20 > 15
    sim.clear_accelerations();
    sim.pairwise_forces();
    assert_eq!(sim.acceleration(0), Vec3::zero());
    assert_eq!(sim.acceleration(1), Vec3::zero());
}

#[test]
fn default_config_matches_stock_constants() {
    let c = SimConfig::default();
    assert_eq!(c.policy, ForcePolicy::Repulsion);
    assert!(c.central_force);
    assert_eq!(c.gravity, 3_000_000);
    assert_eq!(c.repulsion, 25_000_000);
    assert_eq!(c.damping, 5_000);
    assert_eq!(c.force_cutoff, 15_000_000);
    assert_eq!(c.min_distance, 100_000);
    assert_eq!(c.central_scale, 10_000_000);
}
