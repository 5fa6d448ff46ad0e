//! The separation rule: a repulsion force away from neighbors that stand
//! closer than the separation radius.

use vstd::prelude::*;
use crate::movement::{normalize_force, normalize_spec, Position};
use crate::vec2::{dist_sq, in_box, Vec2};
use crate::{MAX_DIM, MAX_POP};

verus! {

/// Per-entity output slot of the separation pass, recomputed every tick.
#[derive(Clone, Copy, Debug, PartialEq, Eq, Structural)]
pub struct SeparationComponent(pub Vec2);

impl SeparationComponent {
    /// A fresh slot holding the zero vector.
    pub fn new() -> (c: SeparationComponent)
        ensures
            c.0.is_zero(),
    {
        SeparationComponent(Vec2 { x: 0, y: 0 })
    }
}

/// Repulsion accumulated by entity a from the first k entities: the sum of
/// (A - B) over every entity B other than a (by identity, not by position)
/// whose squared distance to a is strictly below d2.
pub open spec fn sep_sum(ps: Seq<Position>, a: int, d2: int, k: int) -> (int, int)
    decreases k,
{
    if k <= 0 {
        (0, 0)
    } else {
        let prev = sep_sum(ps, a, d2, k - 1);
        let j = k - 1;
        if j != a && dist_sq(ps[a].0, ps[j].0) < d2 {
            (prev.0 + (ps[a].0.x - ps[j].0.x), prev.1 + (ps[a].0.y - ps[j].0.y))
        } else {
            prev
        }
    }
}

/// The separation rule's output for entity a: the accumulated repulsion away
/// from all neighbors within the radius, normalized to magnitude mag; the
/// zero vector when nothing accumulated.
pub open spec fn separation_force(ps: Seq<Position>, a: int, dist: int, mag: int) -> (int, int) {
    let s = sep_sum(ps, a, dist * dist, ps.len() as int);
    normalize_spec(s.0, s.1, mag)
}

/// With no other entity strictly within the radius, nothing accumulates.
pub proof fn lemma_sep_sum_empty(ps: Seq<Position>, a: int, d2: int, k: int)
    requires
        forall|j: int| 0 <= j < k && j != a ==> #[trigger] dist_sq(ps[a].0, ps[j].0) >= d2,
    ensures
        sep_sum(ps, a, d2, k) == (0int, 0int),
    decreases k,
{
    if k > 0 {
        lemma_sep_sum_empty(ps, a, d2, k - 1);
    }
}

/// Two entities sharing one spot repel nothing: the lone contribution to the
/// accumulator is A - B == 0, so the zero-vector fallback fires and the
/// separation rule yields the exact zero vector for both, whatever the
/// radius and magnitude.
pub proof fn lemma_coincident_pair_separation(ps: Seq<Position>, dist: int, mag: int, a: int)
    requires
        ps.len() == 2,
        ps[0].0 == ps[1].0,
        0 <= a < 2,
    ensures
        separation_force(ps, a, dist, mag) == (0int, 0int),
{
    let d2 = dist * dist;
    assert(sep_sum(ps, a, d2, 0) == (0int, 0int));
    assert(sep_sum(ps, a, d2, 1) == (0int, 0int));
    assert(sep_sum(ps, a, d2, 2) == (0int, 0int));
}

/// The separation pass. For each member entity it scans every other entity,
/// accumulates the repulsion away from those strictly within the radius and
/// normalizes it to the configured magnitude; non-members get the zero
/// vector.
pub struct SeparationSystem {
    pub distance: i64,
    pub force: i64,
}

impl SeparationSystem {
    /// One tick of the separation pass over a read-only snapshot of the
    /// positions. `members` marks the entities enrolled in this rule.
    #[verifier::loop_isolation(false)]
    pub fn run(&self, positions: &Vec<Position>, members: &Vec<bool>) -> (out: Vec<
        SeparationComponent,
    >)
        requires
            members.len() == positions.len(),
            positions.len() <= MAX_POP,
            0 < self.distance <= MAX_DIM,
            0 < self.force <= MAX_DIM,
            forall|i: int|
                0 <= i < positions.len() ==> in_box((#[trigger] positions@[i]).0, MAX_DIM as int),
        ensures
            out.len() == positions.len(),
            forall|i: int|
                0 <= i < out.len() && members@[i] ==> (#[trigger] out@[i]).0.x
                    == separation_force(
                    positions@,
                    i,
                    self.distance as int,
                    self.force as int,
                ).0 && out@[i].0.y == separation_force(
                    positions@,
                    i,
                    self.distance as int,
                    self.force as int,
                ).1,
            forall|i: int| 0 <= i < out.len() && !members@[i] ==> (#[trigger] out@[i]).0.is_zero(),
    {
        proof {
            assert(0 < self.distance * self.distance <= 1_000_000_000_000) by (nonlinear_arith)
                requires
                    0 < self.distance <= 1_000_000,
            ;
        }
        let d2 = self.distance * self.distance;
        let n = positions.len();
        let mut out: Vec<SeparationComponent> = Vec::new();
        let mut i: usize = 0;
        while i < n
            invariant
                i <= n,
                out.len() == i,
                forall|k: int|
                    0 <= k < i && members@[k] ==> (#[trigger] out@[k]).0.x == separation_force(
                        positions@,
                        k,
                        self.distance as int,
                        self.force as int,
                    ).0 && out@[k].0.y == separation_force(
                        positions@,
                        k,
                        self.distance as int,
                        self.force as int,
                    ).1,
                forall|k: int| 0 <= k < i && !members@[k] ==> (#[trigger] out@[k]).0.is_zero(),
            decreases n - i,
        {
            if members[i] {
                let pa = positions[i].0;
                let mut fx: i64 = 0;
                let mut fy: i64 = 0;
                let mut j: usize = 0;
                while j < n
                    invariant
                        j <= n,
                        (fx as int, fy as int) == sep_sum(positions@, i as int, d2 as int, j as int),
                        -2_000_000 * (j as int) <= fx as int <= 2_000_000 * (j as int),
                        -2_000_000 * (j as int) <= fy as int <= 2_000_000 * (j as int),
                    decreases n - j,
                {
                    if j != i {
                        let pb = positions[j].0;
                        let dx = pa.x - pb.x;
                        let dy = pa.y - pb.y;
                        proof {
                            assert(dx * dx + dy * dy <= 8_000_000_000_000 && 0 <= dx * dx && 0
                                <= dy * dy) by (nonlinear_arith)
                                requires
                                    -2_000_000 <= dx <= 2_000_000,
                                    -2_000_000 <= dy <= 2_000_000,
                            ;
                        }
                        let dsq = dx * dx + dy * dy;
                        if dsq < d2 {
                            fx = fx + dx;
                            fy = fy + dy;
                        }
                    }
                    j = j + 1;
                }
                let f = normalize_force(Vec2 { x: fx, y: fy }, self.force);
                out.push(SeparationComponent(f));
            } else {
                out.push(SeparationComponent(Vec2 { x: 0, y: 0 }));
            }
            i = i + 1;
        }
        out
    }
}

} // verus!
