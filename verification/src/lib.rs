//! A verified flocking ("boids") engine on a bounded planar domain.
//!
//! Every tick, each entity gathers three steering forces from its neighbors —
//! separation, alignment and cohesion — adds them to its velocity, clamps the
//! speed, integrates its position and wraps around the rectangular domain.
//! All coordinates are exact integers, so every force, every clamp and every
//! wrap is pinned down by the contracts below.

pub mod alignment;
pub mod cohesion;
pub mod movement;
pub mod separation;
pub mod vec2;

use vstd::prelude::*;
use crate::alignment::{alignment_force, lemma_align_sum_empty, AlignmentSystem};
use crate::cohesion::{cohesion_force, lemma_coh_sum_empty, CohesionSystem};
use crate::movement::{
    clamp_spec, lemma_normalize_bounds, pos_in_domain, wrap1, MovementSystem, Position, Velocity,
};
use crate::separation::{lemma_sep_sum_empty, separation_force, SeparationSystem};
use crate::vec2::{dist_sq, in_box, lemma_sq_le, norm_sq};

verus! {

/// Largest domain dimension, neighbor radius, force magnitude and speed
/// limit the engine accepts; keeps every squared distance and accumulated
/// force well inside `i64`.
pub const MAX_DIM: i64 = 1_000_000;

/// Largest entity population the engine accepts; keeps every accumulated
/// force within the range the vector utilities take.
pub const MAX_POP: usize = 1000;

/// The recognized configuration options: a neighbor radius and a force
/// magnitude per rule, the speed limit, and the domain dimensions.
#[derive(Clone, Copy, Debug, PartialEq, Eq, Structural)]
pub struct Config {
    pub separation_distance: i64,
    pub separation_force: i64,
    pub alignment_distance: i64,
    pub alignment_force: i64,
    pub cohesion_distance: i64,
    pub cohesion_force: i64,
    pub max_velocity: i64,
    pub domain_width: i64,
    pub domain_height: i64,
}

impl Config {
    /// A lawful configuration: every option positive and within the engine's
    /// range, the domain dimensions even (so half a dimension is exact), and
    /// the speed limit at most half the smaller dimension, which is what
    /// makes a single wrap per axis per tick sufficient.
    pub open spec fn valid(self) -> bool {
        &&& 0 < self.separation_distance <= MAX_DIM
        &&& 0 < self.separation_force <= MAX_DIM
        &&& 0 < self.alignment_distance <= MAX_DIM
        &&& 0 < self.alignment_force <= MAX_DIM
        &&& 0 < self.cohesion_distance <= MAX_DIM
        &&& 0 < self.cohesion_force <= MAX_DIM
        &&& 0 < self.max_velocity
        &&& 0 < self.domain_width <= MAX_DIM
        &&& 0 < self.domain_height <= MAX_DIM
        &&& self.domain_width % 2 == 0
        &&& self.domain_height % 2 == 0
        &&& 2 * self.max_velocity <= self.domain_width
        &&& 2 * self.max_velocity <= self.domain_height
    }

    /// Validates the options at configuration time: a violation is reported
    /// here, by returning nothing, and can never reach the simulation.
    pub fn new(
        separation_distance: i64,
        separation_force: i64,
        alignment_distance: i64,
        alignment_force: i64,
        cohesion_distance: i64,
        cohesion_force: i64,
        max_velocity: i64,
        domain_width: i64,
        domain_height: i64,
    ) -> (c: Option<Config>)
        ensures
            ({
                let config = Config {
                    separation_distance,
                    separation_force,
                    alignment_distance,
                    alignment_force,
                    cohesion_distance,
                    cohesion_force,
                    max_velocity,
                    domain_width,
                    domain_height,
                };
                &&& c is Some <==> config.valid()
                &&& c is Some ==> c == Some(config)
            }),
    {
        let config = Config {
            separation_distance,
            separation_force,
            alignment_distance,
            alignment_force,
            cohesion_distance,
            cohesion_force,
            max_velocity,
            domain_width,
            domain_height,
        };
        if 0 < separation_distance && separation_distance <= MAX_DIM && 0 < separation_force
            && separation_force <= MAX_DIM && 0 < alignment_distance && alignment_distance
            <= MAX_DIM && 0 < alignment_force && alignment_force <= MAX_DIM && 0
            < cohesion_distance && cohesion_distance <= MAX_DIM && 0 < cohesion_force
            && cohesion_force <= MAX_DIM && 0 < max_velocity && 0 < domain_width && domain_width
            <= MAX_DIM && 0 < domain_height && domain_height <= MAX_DIM && (domain_width as u64) % 2
            == 0 && (domain_height as u64) % 2 == 0 && max_velocity <= domain_width - max_velocity
            && max_velocity <= domain_height - max_velocity {
            Some(config)
        } else {
            None
        }
    }
}

/// Which of the three steering rules an entity is enrolled in; the engine
/// tolerates any combination, a missing rule contributing the zero vector.
#[derive(Clone, Copy, Debug, PartialEq, Eq, Structural)]
pub struct RuleSet {
    pub separation: bool,
    pub alignment: bool,
    pub cohesion: bool,
}

/// The force on entity i this tick: each enrolled rule contributes its
/// output, a missing rule the zero vector, and the three add up.
pub open spec fn tick_force(
    ps: Seq<Position>,
    vs: Seq<Velocity>,
    rules: Seq<RuleSet>,
    config: Config,
    i: int,
) -> (int, int) {
    let s = if rules[i].separation {
        separation_force(ps, i, config.separation_distance as int, config.separation_force as int)
    } else {
        (0int, 0int)
    };
    let al = if rules[i].alignment {
        alignment_force(
            ps,
            vs,
            i,
            config.alignment_distance as int,
            config.alignment_force as int,
        )
    } else {
        (0int, 0int)
    };
    let co = if rules[i].cohesion {
        cohesion_force(ps, i, config.cohesion_distance as int, config.cohesion_force as int)
    } else {
        (0int, 0int)
    };
    (s.0 + al.0 + co.0, s.1 + al.1 + co.1)
}

/// Entity i's velocity after the tick: the force applied, the speed clamped.
pub open spec fn tick_velocity(
    ps: Seq<Position>,
    vs: Seq<Velocity>,
    rules: Seq<RuleSet>,
    config: Config,
    i: int,
) -> (int, int) {
    let f = tick_force(ps, vs, rules, config, i);
    clamp_spec(vs[i].0.x + f.0, vs[i].0.y + f.1, config.max_velocity as int)
}

/// Entity i's position after the tick: advanced by the new velocity and
/// wrapped across the domain edges.
pub open spec fn tick_position(
    ps: Seq<Position>,
    vs: Seq<Velocity>,
    rules: Seq<RuleSet>,
    config: Config,
    i: int,
) -> (int, int) {
    let v = tick_velocity(ps, vs, rules, config, i);
    (
        wrap1(ps[i].0.x + v.0, config.domain_width as int),
        wrap1(ps[i].0.y + v.1, config.domain_height as int),
    )
}

/// One simulation tick: the engine's pure state transition. The three force
/// passes read the tick-start snapshot of positions and velocities and fill
/// fresh per-entity buffers; the integrator consumes all three, so it runs
/// strictly after them.
pub fn tick(
    config: &Config,
    rules: &Vec<RuleSet>,
    positions: &mut Vec<Position>,
    velocities: &mut Vec<Velocity>,
)
    requires
        config.valid(),
        rules.len() == old(positions).len(),
        old(velocities).len() == old(positions).len(),
        old(positions).len() <= MAX_POP,
        forall|i: int|
            0 <= i < old(positions).len() ==> pos_in_domain(
                (#[trigger] old(positions)@[i]).0,
                config.domain_width as int,
                config.domain_height as int,
            ),
        forall|i: int|
            0 <= i < old(velocities).len() ==> norm_sq(
                (#[trigger] old(velocities)@[i]).0.x as int,
                old(velocities)@[i].0.y as int,
            ) <= config.max_velocity * config.max_velocity,
    ensures
        final(positions).len() == old(positions).len(),
        final(velocities).len() == old(velocities).len(),
        forall|i: int|
            0 <= i < old(positions).len() ==> (#[trigger] final(velocities)@[i]).0.x
                == tick_velocity(old(positions)@, old(velocities)@, rules@, *config, i).0
                && final(velocities)@[i].0.y == tick_velocity(
                old(positions)@,
                old(velocities)@,
                rules@,
                *config,
                i,
            ).1,
        forall|i: int|
            0 <= i < old(positions).len() ==> norm_sq(
                (#[trigger] final(velocities)@[i]).0.x as int,
                final(velocities)@[i].0.y as int,
            ) <= config.max_velocity * config.max_velocity,
        forall|i: int|
            0 <= i < old(positions).len() ==> (#[trigger] final(positions)@[i]).0.x
                == tick_position(old(positions)@, old(velocities)@, rules@, *config, i).0
                && final(positions)@[i].0.y == tick_position(
                old(positions)@,
                old(velocities)@,
                rules@,
                *config,
                i,
            ).1,
        forall|i: int|
            0 <= i < old(positions).len() ==> pos_in_domain(
                (#[trigger] final(positions)@[i]).0,
                config.domain_width as int,
                config.domain_height as int,
            ),
{
    let n = positions.len();
    let mut sep_members: Vec<bool> = Vec::new();
    let mut ali_members: Vec<bool> = Vec::new();
    let mut coh_members: Vec<bool> = Vec::new();
    let mut i: usize = 0;
    while i < n
        invariant
            i <= n,
            n == rules.len(),
            sep_members.len() == i,
            ali_members.len() == i,
            coh_members.len() == i,
            forall|k: int| 0 <= k < i ==> sep_members@[k] == (#[trigger] rules@[k]).separation,
            forall|k: int| 0 <= k < i ==> ali_members@[k] == (#[trigger] rules@[k]).alignment,
            forall|k: int| 0 <= k < i ==> coh_members@[k] == (#[trigger] rules@[k]).cohesion,
        decreases n - i,
    {
        let r = rules[i];
        sep_members.push(r.separation);
        ali_members.push(r.alignment);
        coh_members.push(r.cohesion);
        i = i + 1;
    }
    proof {
        // positions sit in the domain, velocities within the speed limit;
        // both therefore fit the box the passes ask for
        assert forall|k: int| 0 <= k < n implies in_box(
            (#[trigger] positions@[k]).0,
            MAX_DIM as int,
        ) by {
            assert(pos_in_domain(positions@[k].0, config.domain_width as int,
                config.domain_height as int));
        }
        assert forall|k: int| 0 <= k < n implies in_box(
            (#[trigger] velocities@[k]).0,
            MAX_DIM as int,
        ) by {
            let vx = velocities@[k].0.x as int;
            let vy = velocities@[k].0.y as int;
            let lim = config.max_velocity as int;
            assert(vx * vx <= lim * lim && vy * vy <= lim * lim) by (nonlinear_arith)
                requires
                    vx * vx + vy * vy <= lim * lim,
            ;
            lemma_sq_le(vx, lim);
            lemma_sq_le(vy, lim);
        }
    }
    let sep_sys = SeparationSystem {
        distance: config.separation_distance,
        force: config.separation_force,
    };
    let ali_sys = AlignmentSystem {
        distance: config.alignment_distance,
        force: config.alignment_force,
    };
    let coh_sys = CohesionSystem {
        distance: config.cohesion_distance,
        force: config.cohesion_force,
    };
    let seps = sep_sys.run(positions, &sep_members);
    let alis = ali_sys.run(positions, velocities, &ali_members);
    let cohs = coh_sys.run(positions, &coh_members);
    proof {
        // every force output is bounded by its rule's magnitude
        assert forall|k: int| 0 <= k < n implies in_box((#[trigger] seps@[k]).0, MAX_DIM as int) by {
            if sep_members@[k] {
                lemma_normalize_bounds(
                    crate::separation::sep_sum(
                        positions@,
                        k,
                        config.separation_distance * config.separation_distance,
                        positions@.len() as int,
                    ).0,
                    crate::separation::sep_sum(
                        positions@,
                        k,
                        config.separation_distance * config.separation_distance,
                        positions@.len() as int,
                    ).1,
                    config.separation_force as int,
                );
            }
        }
        assert forall|k: int| 0 <= k < n implies in_box((#[trigger] alis@[k]).0, MAX_DIM as int) by {
            if ali_members@[k] {
                let s = crate::alignment::align_sum(
                    positions@,
                    velocities@,
                    k,
                    config.alignment_distance * config.alignment_distance,
                    positions@.len() as int,
                );
                if s.2 > 0 {
                    lemma_normalize_bounds(
                        crate::vec2::div_t(s.0, s.2) + velocities@[k].0.x,
                        crate::vec2::div_t(s.1, s.2) + velocities@[k].0.y,
                        config.alignment_force as int,
                    );
                }
            }
        }
        assert forall|k: int| 0 <= k < n implies in_box((#[trigger] cohs@[k]).0, MAX_DIM as int) by {
            if coh_members@[k] {
                let s = crate::cohesion::coh_sum(
                    positions@,
                    k,
                    config.cohesion_distance * config.cohesion_distance,
                    positions@.len() as int,
                );
                if s.2 > 0 {
                    lemma_normalize_bounds(
                        crate::vec2::div_t(s.0, s.2) - positions@[k].0.x,
                        crate::vec2::div_t(s.1, s.2) - positions@[k].0.y,
                        config.cohesion_force as int,
                    );
                }
            }
        }
    }
    let mover = MovementSystem { max_velocity: config.max_velocity };
    mover.run(
        config.domain_width,
        config.domain_height,
        &alis,
        &cohs,
        &seps,
        positions,
        velocities,
    );
}

/// An isolated entity — one with no other entity strictly within any of the
/// three radii — receives zero force from all three rules, whatever subset
/// it is enrolled in: the tick leaves its velocity unchanged and advances
/// its position in a straight line by exactly that velocity, subject only
/// to the wrap.
pub proof fn lemma_isolated_entity(
    ps: Seq<Position>,
    vs: Seq<Velocity>,
    rules: Seq<RuleSet>,
    config: Config,
    i: int,
)
    requires
        config.valid(),
        vs.len() == ps.len(),
        rules.len() == ps.len(),
        0 <= i < ps.len(),
        norm_sq(vs[i].0.x as int, vs[i].0.y as int) <= config.max_velocity * config.max_velocity,
        forall|j: int|
            0 <= j < ps.len() && j != i ==> #[trigger] dist_sq(ps[i].0, ps[j].0)
                >= config.separation_distance * config.separation_distance && dist_sq(
                ps[i].0,
                ps[j].0,
            ) >= config.alignment_distance * config.alignment_distance && dist_sq(ps[i].0, ps[j].0)
                >= config.cohesion_distance * config.cohesion_distance,
    ensures
        tick_force(ps, vs, rules, config, i) == (0int, 0int),
        tick_velocity(ps, vs, rules, config, i) == (vs[i].0.x as int, vs[i].0.y as int),
        tick_position(ps, vs, rules, config, i) == (
            wrap1(ps[i].0.x + vs[i].0.x, config.domain_width as int),
            wrap1(ps[i].0.y + vs[i].0.y, config.domain_height as int),
        ),
{
    lemma_sep_sum_empty(
        ps,
        i,
        config.separation_distance * config.separation_distance,
        ps.len() as int,
    );
    lemma_align_sum_empty(
        ps,
        vs,
        i,
        config.alignment_distance * config.alignment_distance,
        ps.len() as int,
    );
    lemma_coh_sum_empty(
        ps,
        i,
        config.cohesion_distance * config.cohesion_distance,
        ps.len() as int,
    );
}

} // verus!
