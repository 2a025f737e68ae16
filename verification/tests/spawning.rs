//! Randomized population setup, driven by a seeded generator.

use nbody::fixed::mul_fix;
use nbody::sim::{SimConfig, Simulation};
use nbody::spawn::{generate_bodies, rng_from_seed};
use nbody::vec3::Vec3;

const DT: i128 = 15_625;

#[test]
fn generated_population_is_well_formed() {
    let mut sim = Simulation::new(SimConfig::default());
    let mut rng = rng_from_seed(42);
    generate_bodies(&mut sim, &mut rng, 50, DT);
    assert_eq!(sim.body_count(), 50);
    for h in 0..sim.body_count() {
        let radius = sim.radius(h);
        assert!((500_000..2_000_000).contains(&radius));
        // mass = radius^3 * 0.1 in fixed point
        let expected_mass = mul_fix(mul_fix(mul_fix(radius, radius), radius), 100_000);
        assert_eq!(sim.mass(h), expected_mass);
        assert!(sim.mass(h) > 0);
        assert!(!sim.is_anchor(h));
        assert_eq!(sim.acceleration(h), Vec3::zero());
        let p = sim.position(h);
        assert!(p.x.abs() <= 30_000_000 && p.y.abs() <= 30_000_000 && p.z.abs() <= 30_000_000);
        // the encoded initial speed stays within its bound per component
        let q = sim.previous_position(h);
        let max_step = mul_fix(500_000, DT);
        assert!((p.x - q.x).abs() <= max_step);
        assert!((p.y - q.y).abs() <= max_step);
        assert!((p.z - q.z).abs() <= max_step);
    }
}

#[test]
fn generation_is_deterministic_per_seed() {
    let mut sim_a = Simulation::new(SimConfig::default());
    let mut rng_a = rng_from_seed(7);
    generate_bodies(&mut sim_a, &mut rng_a, 20, DT);
    let mut sim_b = Simulation::new(SimConfig::default());
    let mut rng_b = rng_from_seed(7);
    generate_bodies(&mut sim_b, &mut rng_b, 20, DT);
    for h in 0..20 {
        assert_eq!(sim_a.position(h), sim_b.position(h));
        assert_eq!(sim_a.radius(h), sim_b.radius(h));
        assert_eq!(sim_a.mass(h), sim_b.mass(h));
    }
}

#[test]
fn generated_population_survives_ticks() {
    // A stock run: generated bodies under repulsion, central pull and
    // damping stay well-formed and keep cleared accumulators tick by tick.
    let mut sim = Simulation::new(SimConfig::default());
    let mut rng = rng_from_seed(3);
    generate_bodies(&mut sim, &mut rng, 30, DT);
    for _ in 0..25 {
        sim.tick(DT);
    }
    for h in 0..sim.body_count() {
        assert_eq!(sim.acceleration(h), Vec3::zero());
        let p = sim.position(h);
        assert!(p.x.abs() <= 1_000_000_000_000_000);
        assert!(p.y.abs() <= 1_000_000_000_000_000);
        assert!(p.z.abs() <= 1_000_000_000_000_000);
    }
}
