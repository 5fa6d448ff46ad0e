//! The alignment rule: a velocity-matching force toward the average heading
//! of neighbors within the alignment radius, blended with the entity's own
//! heading before normalization to avoid abrupt reversals.

use vstd::prelude::*;
use crate::movement::{normalize_force, normalize_spec, Position, Velocity};
use crate::vec2::{dist_sq, div_t, div_trunc, in_box, lemma_div_t_le, Vec2};
use crate::{MAX_DIM, MAX_POP};

verus! {

/// Per-entity output slot of the alignment pass, recomputed every tick.
#[derive(Clone, Copy, Debug, PartialEq, Eq, Structural)]
pub struct AlignmentComponent(pub Vec2);

impl AlignmentComponent {
    /// A fresh slot holding the zero vector.
    pub fn new() -> (c: AlignmentComponent)
        ensures
            c.0.is_zero(),
    {
        AlignmentComponent(Vec2 { x: 0, y: 0 })
    }
}

/// Velocities summed by entity a over the first k entities: the component
/// sums and the count of every entity B other than a (by identity) whose
/// squared distance to a is strictly below d2.
pub open spec fn align_sum(
    ps: Seq<Position>,
    vs: Seq<Velocity>,
    a: int,
    d2: int,
    k: int,
) -> (int, int, int)
    decreases k,
{
    if k <= 0 {
        (0, 0, 0)
    } else {
        let prev = align_sum(ps, vs, a, d2, k - 1);
        let j = k - 1;
        if j != a && dist_sq(ps[a].0, ps[j].0) < d2 {
            (prev.0 + vs[j].0.x, prev.1 + vs[j].0.y, prev.2 + 1)
        } else {
            prev
        }
    }
}

/// The alignment rule's output for entity a: the average neighbor velocity
/// plus a's own velocity, normalized to magnitude mag; the zero vector when
/// no neighbor is within the radius.
pub open spec fn alignment_force(
    ps: Seq<Position>,
    vs: Seq<Velocity>,
    a: int,
    dist: int,
    mag: int,
) -> (int, int) {
    let s = align_sum(ps, vs, a, dist * dist, ps.len() as int);
    if s.2 > 0 {
        normalize_spec(div_t(s.0, s.2) + vs[a].0.x, div_t(s.1, s.2) + vs[a].0.y, mag)
    } else {
        (0, 0)
    }
}

/// With no other entity strictly within the radius, nothing accumulates.
pub proof fn lemma_align_sum_empty(ps: Seq<Position>, vs: Seq<Velocity>, a: int, d2: int, k: int)
    requires
        forall|j: int| 0 <= j < k && j != a ==> #[trigger] dist_sq(ps[a].0, ps[j].0) >= d2,
    ensures
        align_sum(ps, vs, a, d2, k) == (0int, 0int, 0int),
    decreases k,
{
    if k > 0 {
        lemma_align_sum_empty(ps, vs, a, d2, k - 1);
    }
}

/// The alignment pass. For each member entity it averages the velocities of
/// all neighbors strictly within the radius, adds the entity's own velocity
/// and normalizes to the configured magnitude; with no neighbor, and for
/// non-members, the output is the zero vector.
pub struct AlignmentSystem {
    pub distance: i64,
    pub force: i64,
}

impl AlignmentSystem {
    /// One tick of the alignment pass over read-only snapshots of positions
    /// and velocities. `members` marks the entities enrolled in this rule.
    #[verifier::loop_isolation(false)]
    pub fn run(
        &self,
        positions: &Vec<Position>,
        velocities: &Vec<Velocity>,
        members: &Vec<bool>,
    ) -> (out: Vec<AlignmentComponent>)
        requires
            members.len() == positions.len(),
            velocities.len() == positions.len(),
            positions.len() <= MAX_POP,
            0 < self.distance <= MAX_DIM,
            0 < self.force <= MAX_DIM,
            forall|i: int|
                0 <= i < positions.len() ==> in_box((#[trigger] positions@[i]).0, MAX_DIM as int),
            forall|i: int|
                0 <= i < velocities.len() ==> in_box((#[trigger] velocities@[i]).0, MAX_DIM as int),
        ensures
            out.len() == positions.len(),
            forall|i: int|
                0 <= i < out.len() && members@[i] ==> (#[trigger] out@[i]).0.x == alignment_force(
                    positions@,
                    velocities@,
                    i,
                    self.distance as int,
                    self.force as int,
                ).0 && out@[i].0.y == alignment_force(
                    positions@,
                    velocities@,
                    i,
                    self.distance as int,
                    self.force as int,
                ).1,
            forall|i: int| 0 <= i < out.len() && !members@[i] ==> (#[trigger] out@[i]).0.is_zero(),
    {
        proof {
            assert(0 < self.distance * self.distance <= 1_000_000_000_000) by (nonlinear_arith)
                requires
                    0 < self.distance <= 1_000_000,
            ;
        }
        let d2 = self.distance * self.distance;
        let n = positions.len();
        let mut out: Vec<AlignmentComponent> = Vec::new();
        let mut i: usize = 0;
        while i < n
            invariant
                i <= n,
                out.len() == i,
                forall|k: int|
                    0 <= k < i && members@[k] ==> (#[trigger] out@[k]).0.x == alignment_force(
                        positions@,
                        velocities@,
                        k,
                        self.distance as int,
                        self.force as int,
                    ).0 && out@[k].0.y == alignment_force(
                        positions@,
                        velocities@,
                        k,
                        self.distance as int,
                        self.force as int,
                    ).1,
                forall|k: int| 0 <= k < i && !members@[k] ==> (#[trigger] out@[k]).0.is_zero(),
            decreases n - i,
        {
            if members[i] {
                let pa = positions[i].0;
                let mut sx: i64 = 0;
                let mut sy: i64 = 0;
                let mut cnt: usize = 0;
                let mut j: usize = 0;
                while j < n
                    invariant
                        j <= n,
                        cnt <= j,
                        (sx as int, sy as int, cnt as int) == align_sum(
                            positions@,
                            velocities@,
                            i as int,
                            d2 as int,
                            j as int,
                        ),
                        -1_000_000 * (cnt as int) <= sx as int <= 1_000_000 * (cnt as int),
                        -1_000_000 * (cnt as int) <= sy as int <= 1_000_000 * (cnt as int),
                    decreases n - j,
                {
                    if j != i {
                        let pb = positions[j].0;
                        let dx = pa.x - pb.x;
                        let dy = pa.y - pb.y;
                        proof {
                            assert(dx * dx + dy * dy <= 8_000_000_000_000 && 0 <= dx * dx && 0
                                <= dy * dy) by (nonlinear_arith)
                                requires
                                    -2_000_000 <= dx <= 2_000_000,
                                    -2_000_000 <= dy <= 2_000_000,
                            ;
                        }
                        let dsq = dx * dx + dy * dy;
                        if dsq < d2 {
                            let vb = velocities[j].0;
                            sx = sx + vb.x;
                            sy = sy + vb.y;
                            cnt = cnt + 1;
                        }
                    }
                    j = j + 1;
                }
                if cnt > 0 {
                    proof {
                        lemma_div_t_le(sx as int, cnt as int, 1_000_000);
                        lemma_div_t_le(sy as int, cnt as int, 1_000_000);
                    }
                    let avg_x = div_trunc(sx, cnt as i64);
                    let avg_y = div_trunc(sy, cnt as i64);
                    let va = velocities[i].0;
                    let f = normalize_force(Vec2 { x: avg_x + va.x, y: avg_y + va.y }, self.force);
                    out.push(AlignmentComponent(f));
                } else {
                    out.push(AlignmentComponent(Vec2 { x: 0, y: 0 }));
                }
            } else {
                out.push(AlignmentComponent(Vec2 { x: 0, y: 0 }));
            }
            i = i + 1;
        }
        out
    }
}

} // verus!
