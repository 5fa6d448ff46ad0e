//! The cohesion rule: an attraction force toward the centroid of neighbors
//! within the cohesion radius.

use vstd::prelude::*;
use crate::movement::{normalize_force, normalize_spec, Position};
use crate::vec2::{dist_sq, div_t, div_trunc, in_box, lemma_div_t_le, Vec2};
use crate::{MAX_DIM, MAX_POP};

verus! {

/// Per-entity output slot of the cohesion pass, recomputed every tick.
#[derive(Clone, Copy, Debug, PartialEq, Eq, Structural)]
pub struct CohesionComponent(pub Vec2);

impl CohesionComponent {
    /// A fresh slot holding the zero vector.
    pub fn new() -> (c: CohesionComponent)
        ensures
            c.0.is_zero(),
    {
        CohesionComponent(Vec2 { x: 0, y: 0 })
    }
}

/// Positions summed by entity a over the first k entities: the component
/// sums and the count of every entity B other than a (by identity) whose
/// squared distance to a is strictly below d2.
pub open spec fn coh_sum(ps: Seq<Position>, a: int, d2: int, k: int) -> (int, int, int)
    decreases k,
{
    if k <= 0 {
        (0, 0, 0)
    } else {
        let prev = coh_sum(ps, a, d2, k - 1);
        let j = k - 1;
        if j != a && dist_sq(ps[a].0, ps[j].0) < d2 {
            (prev.0 + ps[j].0.x, prev.1 + ps[j].0.y, prev.2 + 1)
        } else {
            prev
        }
    }
}

/// The cohesion rule's output for entity a: the pull from a's position
/// toward the average neighbor position (the local centroid), normalized to
/// magnitude mag; the zero vector when no neighbor is within the radius or
/// when a already stands on the centroid.
pub open spec fn cohesion_force(ps: Seq<Position>, a: int, dist: int, mag: int) -> (int, int) {
    let s = coh_sum(ps, a, dist * dist, ps.len() as int);
    if s.2 > 0 {
        normalize_spec(div_t(s.0, s.2) - ps[a].0.x, div_t(s.1, s.2) - ps[a].0.y, mag)
    } else {
        (0, 0)
    }
}

/// With no other entity strictly within the radius, nothing accumulates.
pub proof fn lemma_coh_sum_empty(ps: Seq<Position>, a: int, d2: int, k: int)
    requires
        forall|j: int| 0 <= j < k && j != a ==> #[trigger] dist_sq(ps[a].0, ps[j].0) >= d2,
    ensures
        coh_sum(ps, a, d2, k) == (0int, 0int, 0int),
    decreases k,
{
    if k > 0 {
        lemma_coh_sum_empty(ps, a, d2, k - 1);
    }
}

/// The cohesion pass. For each member entity it averages the positions of
/// all neighbors strictly within the radius and normalizes the pull toward
/// that centroid to the configured magnitude; with no neighbor, and for
/// non-members, the output is the zero vector.
pub struct CohesionSystem {
    pub distance: i64,
    pub force: i64,
}

impl CohesionSystem {
    /// One tick of the cohesion pass over a read-only snapshot of the
    /// positions. `members` marks the entities enrolled in this rule.
    #[verifier::loop_isolation(false)]
    pub fn run(&self, positions: &Vec<Position>, members: &Vec<bool>) -> (out: Vec<
        CohesionComponent,
    >)
        requires
            members.len() == positions.len(),
            positions.len() <= MAX_POP,
            0 < self.distance <= MAX_DIM,
            0 < self.force <= MAX_DIM,
            forall|i: int|
                0 <= i < positions.len() ==> in_box((#[trigger] positions@[i]).0, MAX_DIM as int),
        ensures
            out.len() == positions.len(),
            forall|i: int|
                0 <= i < out.len() && members@[i] ==> (#[trigger] out@[i]).0.x == cohesion_force(
                    positions@,
                    i,
                    self.distance as int,
                    self.force as int,
                ).0 && out@[i].0.y == cohesion_force(
                    positions@,
                    i,
                    self.distance as int,
                    self.force as int,
                ).1,
            forall|i: int| 0 <= i < out.len() && !members@[i] ==> (#[trigger] out@[i]).0.is_zero(),
    {
        proof {
            assert(0 < self.distance * self.distance <= 1_000_000_000_000) by (nonlinear_arith)
                requires
                    0 < self.distance <= 1_000_000,
            ;
        }
        let d2 = self.distance * self.distance;
        let n = positions.len();
        let mut out: Vec<CohesionComponent> = Vec::new();
        let mut i: usize = 0;
        while i < n
            invariant
                i <= n,
                out.len() == i,
                forall|k: int|
                    0 <= k < i && members@[k] ==> (#[trigger] out@[k]).0.x == cohesion_force(
                        positions@,
                        k,
                        self.distance as int,
                        self.force as int,
                    ).0 && out@[k].0.y == cohesion_force(
                        positions@,
                        k,
                        self.distance as int,
                        self.force as int,
                    ).1,
                forall|k: int| 0 <= k < i && !members@[k] ==> (#[trigger] out@[k]).0.is_zero(),
            decreases n - i,
        {
            if members[i] {
                let pa = positions[i].0;
                let mut sx: i64 = 0;
                let mut sy: i64 = 0;
                let mut cnt: usize = 0;
                let mut j: usize = 0;
                while j < n
                    invariant
                        j <= n,
                        cnt <= j,
                        (sx as int, sy as int, cnt as int) == coh_sum(
                            positions@,
                            i as int,
                            d2 as int,
                            j as int,
                        ),
                        -1_000_000 * (cnt as int) <= sx as int <= 1_000_000 * (cnt as int),
                        -1_000_000 * (cnt as int) <= sy as int <= 1_000_000 * (cnt as int),
                    decreases n - j,
                {
                    if j != i {
                        let pb = positions[j].0;
                        let dx = pa.x - pb.x;
                        let dy = pa.y - pb.y;
                        proof {
                            assert(dx * dx + dy * dy <= 8_000_000_000_000 && 0 <= dx * dx && 0
                                <= dy * dy) by (nonlinear_arith)
                                requires
                                    -2_000_000 <= dx <= 2_000_000,
                                    -2_000_000 <= dy <= 2_000_000,
                            ;
                        }
                        let dsq = dx * dx + dy * dy;
                        if dsq < d2 {
                            sx = sx + pb.x;
                            sy = sy + pb.y;
                            cnt = cnt + 1;
                        }
                    }
                    j = j + 1;
                }
                if cnt > 0 {
                    proof {
                        lemma_div_t_le(sx as int, cnt as int, 1_000_000);
                        lemma_div_t_le(sy as int, cnt as int, 1_000_000);
                    }
                    let avg_x = div_trunc(sx, cnt as i64);
                    let avg_y = div_trunc(sy, cnt as i64);
                    let f = normalize_force(Vec2 { x: avg_x - pa.x, y: avg_y - pa.y }, self.force);
                    out.push(CohesionComponent(f));
                } else {
                    out.push(CohesionComponent(Vec2 { x: 0, y: 0 }));
                }
            } else {
                out.push(CohesionComponent(Vec2 { x: 0, y: 0 }));
            }
            i = i + 1;
        }
        out
    }
}

} // verus!
