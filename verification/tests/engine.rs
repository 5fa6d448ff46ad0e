use boids::alignment::{AlignmentComponent, AlignmentSystem};
use boids::cohesion::{CohesionComponent, CohesionSystem};
use boids::movement::{clamp, normalize_force, MovementSystem, Position, Velocity};
use boids::separation::{SeparationComponent, SeparationSystem};
use boids::vec2::{div_trunc, isqrt_ceil, Vec2};
use boids::{tick, Config, RuleSet};

fn all_rules(n: usize) -> Vec<RuleSet> {
    let mut v = Vec::new();
    for _ in 0..n {
        v.push(RuleSet { separation: true, alignment: true, cohesion: true });
    }
    v
}

fn members(n: usize) -> Vec<bool> {
    let mut v = Vec::new();
    for _ in 0..n {
        v.push(true);
    }
    v
}

#[test]
fn isqrt_ceil_values() {
    assert_eq!(isqrt_ceil(0), 0);
    assert_eq!(isqrt_ceil(1), 1);
    assert_eq!(isqrt_ceil(2), 2);
    assert_eq!(isqrt_ceil(4), 2);
    assert_eq!(isqrt_ceil(400), 20);
    assert_eq!(isqrt_ceil(45000), 213);
    assert_eq!(isqrt_ceil(112500), 336);
}

#[test]
fn div_trunc_rounds_toward_zero() {
    assert_eq!(div_trunc(7, 2), 3);
    assert_eq!(div_trunc(-7, 2), -3);
    assert_eq!(div_trunc(-6, 3), -2);
    assert_eq!(div_trunc(0, 5), 0);
}

#[test]
fn normalize_zero_stays_zero() {
    let r = normalize_force(Vec2::new(0, 0), 7);
    assert_eq!(r, Vec2::new(0, 0));
}

#[test]
fn normalize_exact_norm_and_direction() {
    // 3-4-5 triangle: the rescaling is exact, so the norm is exactly the
    // requested magnitude and the direction is exactly preserved
    let r = normalize_force(Vec2::new(3, 4), 10);
    assert_eq!(r, Vec2::new(6, 8));
    assert_eq!(r.x * r.x + r.y * r.y, 100);
    assert_eq!(r.x * 4, r.y * 3);

    let r = normalize_force(Vec2::new(30, -40), 5);
    assert_eq!(r, Vec2::new(3, -4));
    assert_eq!(r.x * r.x + r.y * r.y, 25);
}

#[test]
fn normalize_inexact_never_exceeds_magnitude() {
    let r = normalize_force(Vec2::new(1, 1), 5);
    assert_eq!(r, Vec2::new(2, 2));
    assert!(r.x * r.x + r.y * r.y <= 25);
}

#[test]
fn clamp_within_limit_is_identity() {
    let r = clamp(Vec2::new(3, 4), 5);
    assert_eq!(r, Vec2::new(3, 4));
}

#[test]
fn clamp_rescales_fast_vector() {
    let r = clamp(Vec2::new(30, 40), 5);
    assert_eq!(r, Vec2::new(3, 4));
    assert_eq!(r.x * r.x + r.y * r.y, 25);
}

#[test]
fn config_accepts_lawful_options() {
    let c = Config::new(50, 1, 100, 1, 200, 1, 5, 1000, 1000);
    assert!(c.is_some());
    let c = c.unwrap();
    assert_eq!(c.separation_distance, 50);
    assert_eq!(c.max_velocity, 5);
    assert_eq!(c.domain_width, 1000);
}

#[test]
fn config_rejects_unlawful_options() {
    // a zero distance
    assert!(Config::new(0, 1, 100, 1, 200, 1, 5, 1000, 1000).is_none());
    // a negative force
    assert!(Config::new(50, -1, 100, 1, 200, 1, 5, 1000, 1000).is_none());
    // a non-positive domain dimension
    assert!(Config::new(50, 1, 100, 1, 200, 1, 5, 0, 1000).is_none());
    // an odd domain dimension
    assert!(Config::new(50, 1, 100, 1, 200, 1, 5, 1001, 1000).is_none());
    // a speed limit above half the smaller dimension
    assert!(Config::new(50, 1, 100, 1, 200, 1, 501, 1000, 1000).is_none());
    // a dimension beyond the engine's range
    assert!(Config::new(50, 1, 100, 1, 200, 1, 5, 1_000_002, 1000).is_none());
}

#[test]
fn two_boids_repel_along_the_axis() {
    // domain 1000 x 1000, boids at (-10, 0) and (10, 0) at rest, separation
    // radius 50 and magnitude 1: each gets a unit force away from the other,
    // and after one tick has speed 1 and has moved apart by 1
    let config = Config::new(50, 1, 1, 1, 1, 1, 5, 1000, 1000).unwrap();
    let mut positions = vec![Position::new(-10, 0), Position::new(10, 0)];
    let mut velocities = vec![Velocity::new(), Velocity::new()];
    let rules = all_rules(2);

    let sep = SeparationSystem { distance: 50, force: 1 };
    let forces = sep.run(&positions, &members(2));
    assert_eq!(forces[0].0, Vec2::new(-1, 0));
    assert_eq!(forces[1].0, Vec2::new(1, 0));
    assert_eq!(forces[0].0.x * forces[0].0.x + forces[0].0.y * forces[0].0.y, 1);

    tick(&config, &rules, &mut positions, &mut velocities);
    assert_eq!(velocities[0].0, Vec2::new(-1, 0));
    assert_eq!(velocities[1].0, Vec2::new(1, 0));
    assert_eq!(positions[0].0, Vec2::new(-11, 0));
    assert_eq!(positions[1].0, Vec2::new(11, 0));
}

#[test]
fn single_boid_wraps_across_the_edge() {
    // a lone boid at (499, 0) moving (10, 0) in a 1000 x 1000 domain crosses
    // the right edge and re-enters at (-491, 0)
    let config = Config::new(50, 1, 50, 1, 50, 1, 20, 1000, 1000).unwrap();
    let mut positions = vec![Position::new(499, 0)];
    let mut velocities = vec![Velocity(Vec2::new(10, 0))];
    let rules = all_rules(1);
    tick(&config, &rules, &mut positions, &mut velocities);
    assert_eq!(velocities[0].0, Vec2::new(10, 0));
    assert_eq!(positions[0].0, Vec2::new(-491, 0));
}

#[test]
fn single_boid_wraps_across_the_lower_edge() {
    let config = Config::new(50, 1, 50, 1, 50, 1, 20, 1000, 1000).unwrap();
    let mut positions = vec![Position::new(-500, 0)];
    let mut velocities = vec![Velocity(Vec2::new(-10, 0))];
    let rules = all_rules(1);
    tick(&config, &rules, &mut positions, &mut velocities);
    assert_eq!(positions[0].0, Vec2::new(490, 0));
}

#[test]
fn isolated_boid_moves_straight() {
    // no neighbor within any radius: zero force, constant velocity
    let config = Config::new(50, 1, 50, 1, 50, 1, 5, 1000, 1000).unwrap();
    let mut positions = vec![Position::new(0, 0)];
    let mut velocities = vec![Velocity(Vec2::new(3, 4))];
    let rules = all_rules(1);
    tick(&config, &rules, &mut positions, &mut velocities);
    assert_eq!(velocities[0].0, Vec2::new(3, 4));
    assert_eq!(positions[0].0, Vec2::new(3, 4));
    tick(&config, &rules, &mut positions, &mut velocities);
    assert_eq!(velocities[0].0, Vec2::new(3, 4));
    assert_eq!(positions[0].0, Vec2::new(6, 8));
}

#[test]
fn coincident_pair_gets_zero_forces() {
    // two boids on the same spot with opposite velocities, well within all
    // three radii: the separation accumulator is the zero vector, and the
    // alignment and cohesion averages cancel without any division fault
    let positions = vec![Position::new(5, 5), Position::new(5, 5)];
    let velocities = vec![Velocity(Vec2::new(3, -2)), Velocity(Vec2::new(-3, 2))];
    let m = members(2);

    let sep = SeparationSystem { distance: 100, force: 10 };
    let sep_out = sep.run(&positions, &m);
    assert_eq!(sep_out[0].0, Vec2::new(0, 0));
    assert_eq!(sep_out[1].0, Vec2::new(0, 0));

    let ali = AlignmentSystem { distance: 100, force: 10 };
    let ali_out = ali.run(&positions, &velocities, &m);
    assert_eq!(ali_out[0].0, Vec2::new(0, 0));
    assert_eq!(ali_out[1].0, Vec2::new(0, 0));

    let coh = CohesionSystem { distance: 100, force: 10 };
    let coh_out = coh.run(&positions, &m);
    assert_eq!(coh_out[0].0, Vec2::new(0, 0));
    assert_eq!(coh_out[1].0, Vec2::new(0, 0));
}

#[test]
fn cohesion_pulls_cluster_toward_centroid() {
    // three boids within cohesion range but far beyond the separation and
    // alignment radii, with distinct velocities: cohesion pulls each toward
    // the centroid of the other two, the other two rules stay silent
    let positions = vec![Position::new(0, 0), Position::new(300, 0), Position::new(0, 300)];
    let velocities = vec![
        Velocity(Vec2::new(1, 0)),
        Velocity(Vec2::new(0, 1)),
        Velocity(Vec2::new(-1, -1)),
    ];
    let m = members(3);

    let sep = SeparationSystem { distance: 10, force: 100 };
    let sep_out = sep.run(&positions, &m);
    for c in &sep_out {
        assert_eq!(c.0, Vec2::new(0, 0));
    }

    let ali = AlignmentSystem { distance: 10, force: 100 };
    let ali_out = ali.run(&positions, &velocities, &m);
    for c in &ali_out {
        assert_eq!(c.0, Vec2::new(0, 0));
    }

    let coh = CohesionSystem { distance: 1000, force: 100 };
    let coh_out = coh.run(&positions, &m);
    // centroid of the others seen from (0, 0) is (150, 150)
    assert_eq!(coh_out[0].0, Vec2::new(70, 70));
    // seen from (300, 0): pull toward (0, 150), so left and up
    assert_eq!(coh_out[1].0, Vec2::new(-89, 44));
    assert!(coh_out[1].0.x < 0 && coh_out[1].0.y > 0);
    // seen from (0, 300): pull toward (150, 0), so right and down
    assert_eq!(coh_out[2].0, Vec2::new(44, -89));
}

#[test]
fn alignment_blends_neighbor_and_own_heading() {
    // two boids within the alignment radius: each takes the other's velocity
    // as the neighbor average, adds its own and is normalized to magnitude
    // 10; (3, 0) blended with (0, 4) gives the exact 3-4-5 direction (6, 8)
    let positions = vec![Position::new(0, 0), Position::new(10, 0)];
    let velocities = vec![Velocity(Vec2::new(3, 0)), Velocity(Vec2::new(0, 4))];
    let ali = AlignmentSystem { distance: 50, force: 10 };
    let out = ali.run(&positions, &velocities, &members(2));
    assert_eq!(out[0].0, Vec2::new(6, 8));
    assert_eq!(out[1].0, Vec2::new(6, 8));
}

#[test]
fn velocity_never_exceeds_the_limit() {
    // strong unbalanced forces on a close pair: the raw force would give
    // speed 400, the clamp cuts it to exactly the limit
    let config = Config::new(50, 1000, 50, 1000, 50, 600, 5, 1000, 1000).unwrap();
    let mut positions = vec![Position::new(0, 0), Position::new(1, 0)];
    let mut velocities = vec![Velocity::new(), Velocity::new()];
    let rules = all_rules(2);
    tick(&config, &rules, &mut positions, &mut velocities);
    assert_eq!(velocities[0].0, Vec2::new(-5, 0));
    assert_eq!(velocities[1].0, Vec2::new(5, 0));
    assert_eq!(positions[0].0, Vec2::new(-5, 0));
    assert_eq!(positions[1].0, Vec2::new(6, 0));
    for v in &velocities {
        assert!(v.0.x * v.0.x + v.0.y * v.0.y <= 25);
    }
    for p in &positions {
        assert!(-500 <= p.0.x && p.0.x < 500);
        assert!(-500 <= p.0.y && p.0.y < 500);
    }
}

#[test]
fn rules_can_be_enabled_per_entity() {
    // the first boid is enrolled in nothing and coasts; the second is
    // enrolled in separation only and is pushed away
    let config = Config::new(50, 1, 50, 1, 50, 1, 5, 1000, 1000).unwrap();
    let mut positions = vec![Position::new(-10, 0), Position::new(10, 0)];
    let mut velocities = vec![Velocity::new(), Velocity::new()];
    let rules = vec![
        RuleSet { separation: false, alignment: false, cohesion: false },
        RuleSet { separation: true, alignment: false, cohesion: false },
    ];
    tick(&config, &rules, &mut positions, &mut velocities);
    assert_eq!(velocities[0].0, Vec2::new(0, 0));
    assert_eq!(positions[0].0, Vec2::new(-10, 0));
    assert_eq!(velocities[1].0, Vec2::new(1, 0));
    assert_eq!(positions[1].0, Vec2::new(11, 0));
}

#[test]
fn integrator_combines_forces_and_moves() {
    let mover = MovementSystem { max_velocity: 5 };
    let alis = vec![AlignmentComponent(Vec2::new(0, 1))];
    let cohs = vec![CohesionComponent(Vec2::new(0, 0))];
    let seps = vec![SeparationComponent(Vec2::new(2, 0))];
    let mut positions = vec![Position::new(0, 0)];
    let mut velocities = vec![Velocity(Vec2::new(1, 0))];
    mover.run(1000, 1000, &alis, &cohs, &seps, &mut positions, &mut velocities);
    assert_eq!(velocities[0].0, Vec2::new(3, 1));
    assert_eq!(positions[0].0, Vec2::new(3, 1));
}

#[test]
fn fresh_components_hold_zero() {
    assert_eq!(SeparationComponent::new().0, Vec2::new(0, 0));
    assert_eq!(AlignmentComponent::new().0, Vec2::new(0, 0));
    assert_eq!(CohesionComponent::new().0, Vec2::new(0, 0));
    let p = Position::new(7, -3);
    assert_eq!(p.0, Vec2::new(7, -3));
    assert_eq!(Velocity::new().0, Vec2::new(0, 0));
}
