//! Durable per-entity state — position and velocity — together with the
//! shared force utilities (normalize to a magnitude, speed clamp) and the
//! motion integrator that applies the three steering forces each tick.

use vstd::prelude::*;
use crate::alignment::AlignmentComponent;
use crate::cohesion::CohesionComponent;
use crate::separation::SeparationComponent;
use crate::vec2::{
    div_t, div_trunc, in_box, is_sqrt_ceil, isqrt_ceil, lemma_div_t_basics, lemma_div_t_le,
    lemma_div_t_sq, lemma_sq_le, lemma_sqrt_ceil, lemma_sqrt_ceil_unique, norm_sq, sqrt_ceil,
    Vec2, VEC_LIMIT,
};
use crate::MAX_DIM;

verus! {

/// An entity's location, confined to the rectangular domain.
#[derive(Clone, Copy, Debug, PartialEq, Eq, Structural)]
pub struct Position(pub Vec2);

impl Position {
    /// The position with the given coordinates.
    pub fn new(x: i64, y: i64) -> (p: Position)
        ensures
            p.0.x == x,
            p.0.y == y,
    {
        Position(Vec2 { x, y })
    }
}

/// An entity's current speed and heading.
#[derive(Clone, Copy, Debug, PartialEq, Eq, Structural)]
pub struct Velocity(pub Vec2);

impl Velocity {
    /// Entities start at rest.
    pub fn new() -> (v: Velocity)
        ensures
            v.0.is_zero(),
    {
        Velocity(Vec2 { x: 0, y: 0 })
    }
}

/// The shared normalization rule: the zero vector stays zero; any other
/// vector is rescaled toward magnitude m by the ceiling square root of its
/// squared norm, each component dividing with truncation toward zero.
pub open spec fn normalize_spec(x: int, y: int, m: int) -> (int, int) {
    if x == 0 && y == 0 {
        (0, 0)
    } else {
        let n = sqrt_ceil(norm_sq(x, y));
        (div_t(x * m, n), div_t(y * m, n))
    }
}

/// The speed clamp: a vector whose squared norm is within limit^2 passes
/// through unchanged; a faster one is rescaled toward magnitude limit.
pub open spec fn clamp_spec(x: int, y: int, limit: int) -> (int, int) {
    if norm_sq(x, y) <= limit * limit {
        (x, y)
    } else {
        let n = sqrt_ceil(norm_sq(x, y));
        (div_t(x * limit, n), div_t(y * limit, n))
    }
}

/// Shared core of the normalization and clamp bounds: rescaling a nonzero
/// vector toward magnitude m by its ceiling-square-root norm keeps the
/// squared norm within m^2, keeps each component within [-m, m], and
/// preserves each component's sign.
proof fn lemma_scale_bounds(x: int, y: int, m: int)
    requires
        0 <= m,
        !(x == 0 && y == 0),
    ensures
        ({
            let n = sqrt_ceil(norm_sq(x, y));
            let rx = div_t(x * m, n);
            let ry = div_t(y * m, n);
            &&& 1 <= n
            &&& norm_sq(x, y) <= n * n
            &&& norm_sq(rx, ry) <= m * m
            &&& -m <= rx <= m
            &&& -m <= ry <= m
            &&& x > 0 ==> rx >= 0
            &&& x < 0 ==> rx <= 0
            &&& x == 0 ==> rx == 0
            &&& y > 0 ==> ry >= 0
            &&& y < 0 ==> ry <= 0
            &&& y == 0 ==> ry == 0
        }),
{
    let s = norm_sq(x, y);
    assert(s >= 1) by (nonlinear_arith)
        requires
            !(x == 0 && y == 0),
            s == x * x + y * y,
    ;
    lemma_sqrt_ceil(s);
    let n = sqrt_ceil(s);
    assert(n >= 1) by (nonlinear_arith)
        requires
            0 <= n,
            s <= n * n,
            s >= 1,
    ;
    let rx = div_t(x * m, n);
    let ry = div_t(y * m, n);
    // each scaled component stays within n * m, so the quotient within m
    assert(x * x <= n * n && y * y <= n * n) by (nonlinear_arith)
        requires
            x * x + y * y <= n * n,
    ;
    lemma_sq_le(x, n);
    lemma_sq_le(y, n);
    assert(-(n * m) <= x * m <= n * m && -(n * m) <= y * m <= n * m) by (nonlinear_arith)
        requires
            -n <= x <= n,
            -n <= y <= n,
            0 <= m,
    ;
    lemma_div_t_le(x * m, n, m);
    lemma_div_t_le(y * m, n, m);
    // squared-norm bound: rx^2 * n^2 <= (x*m)^2, likewise for y; summing and
    // cancelling n^2 bounds the squared norm by m^2
    lemma_div_t_sq(x * m, n);
    lemma_div_t_sq(y * m, n);
    assert((rx * rx + ry * ry) * (n * n) == rx * rx * (n * n) + ry * ry * (n * n))
        by (nonlinear_arith);
    assert((x * m) * (x * m) + (y * m) * (y * m) == (x * x + y * y) * (m * m))
        by (nonlinear_arith);
    assert((x * x + y * y) * (m * m) <= (n * n) * (m * m)) by (nonlinear_arith)
        requires
            x * x + y * y <= n * n,
            0 <= m,
    ;
    assert((rx * rx + ry * ry) * (n * n) <= (n * n) * (m * m));
    assert(rx * rx + ry * ry <= m * m) by (nonlinear_arith)
        requires
            (rx * rx + ry * ry) * (n * n) <= (n * n) * (m * m),
            n >= 1,
    ;
    // sign preservation comes from the sign of the scaled component
    lemma_div_t_basics(x * m, n);
    lemma_div_t_basics(y * m, n);
    assert(x > 0 ==> x * m >= 0) by (nonlinear_arith)
        requires
            0 <= m,
    ;
    assert(x < 0 ==> x * m <= 0) by (nonlinear_arith)
        requires
            0 <= m,
    ;
    assert(x == 0 ==> x * m == 0) by (nonlinear_arith);
    assert(y > 0 ==> y * m >= 0) by (nonlinear_arith)
        requires
            0 <= m,
    ;
    assert(y < 0 ==> y * m <= 0) by (nonlinear_arith)
        requires
            0 <= m,
    ;
    assert(y == 0 ==> y * m == 0) by (nonlinear_arith);
}

/// Every output of the normalization rule is bounded: its squared norm never
/// exceeds m^2, each component lies within [-m, m] and keeps the sign of the
/// matching input component, and the zero vector maps to the zero vector.
pub proof fn lemma_normalize_bounds(x: int, y: int, m: int)
    requires
        0 <= m,
    ensures
        ({
            let r = normalize_spec(x, y, m);
            &&& norm_sq(r.0, r.1) <= m * m
            &&& -m <= r.0 <= m
            &&& -m <= r.1 <= m
            &&& (x == 0 && y == 0) ==> r == (0int, 0int)
            &&& x > 0 ==> r.0 >= 0
            &&& x < 0 ==> r.0 <= 0
            &&& x == 0 ==> r.0 == 0
            &&& y > 0 ==> r.1 >= 0
            &&& y < 0 ==> r.1 <= 0
            &&& y == 0 ==> r.1 == 0
        }),
{
    if x == 0 && y == 0 {
        assert(norm_sq(0, 0) == 0) by (nonlinear_arith);
        assert(0 <= m * m) by (nonlinear_arith);
    } else {
        lemma_scale_bounds(x, y, m);
    }
}

/// On inputs where the integer arithmetic is exact — the squared norm is a
/// perfect square n^2 and n divides both scaled components — normalization
/// yields squared norm exactly m^2 and an exactly collinear vector.
pub proof fn lemma_normalize_exact(x: int, y: int, m: int, n: int)
    requires
        0 <= m,
        0 <= n,
        !(x == 0 && y == 0),
        n * n == norm_sq(x, y),
        (x * m) % n == 0,
        (y * m) % n == 0,
    ensures
        ({
            let r = normalize_spec(x, y, m);
            &&& norm_sq(r.0, r.1) == m * m
            &&& r.0 * y == r.1 * x
        }),
{
    let s = norm_sq(x, y);
    assert(s >= 1) by (nonlinear_arith)
        requires
            !(x == 0 && y == 0),
            s == x * x + y * y,
    ;
    assert(n >= 1) by (nonlinear_arith)
        requires
            0 <= n,
            n * n == s,
            s >= 1,
    ;
    assert((n - 1) * (n - 1) < s) by (nonlinear_arith)
        requires
            n >= 1,
            n * n == s,
    ;
    assert(is_sqrt_ceil(s, n));
    lemma_sqrt_ceil_unique(s, n);
    lemma_div_t_basics(x * m, n);
    lemma_div_t_basics(y * m, n);
    let rx = div_t(x * m, n);
    let ry = div_t(y * m, n);
    assert(rx * n == x * m);
    assert(ry * n == y * m);
    assert(rx * rx * (n * n) == (x * m) * (x * m)) by (nonlinear_arith)
        requires
            rx * n == x * m,
    ;
    assert(ry * ry * (n * n) == (y * m) * (y * m)) by (nonlinear_arith)
        requires
            ry * n == y * m,
    ;
    assert((rx * rx + ry * ry) * (n * n) == rx * rx * (n * n) + ry * ry * (n * n))
        by (nonlinear_arith);
    assert((x * m) * (x * m) + (y * m) * (y * m) == (x * x + y * y) * (m * m))
        by (nonlinear_arith);
    assert((x * x + y * y) * (m * m) == (n * n) * (m * m));
    assert((rx * rx + ry * ry) * (n * n) == (n * n) * (m * m));
    assert(rx * rx + ry * ry == m * m) by (nonlinear_arith)
        requires
            (rx * rx + ry * ry) * (n * n) == (n * n) * (m * m),
            n >= 1,
    ;
    assert(rx * y == ry * x) by (nonlinear_arith)
        requires
            n >= 1,
            rx * n == x * m,
            ry * n == y * m,
    ;
}

/// The clamp never exceeds the limit and is the identity within it.
pub proof fn lemma_clamp_bounds(x: int, y: int, limit: int)
    requires
        0 <= limit,
    ensures
        ({
            let r = clamp_spec(x, y, limit);
            &&& norm_sq(r.0, r.1) <= limit * limit
            &&& -limit <= r.0 <= limit
            &&& -limit <= r.1 <= limit
            &&& norm_sq(x, y) <= limit * limit ==> r == (x, y)
        }),
{
    if norm_sq(x, y) <= limit * limit {
        assert(x * x <= limit * limit && y * y <= limit * limit) by (nonlinear_arith)
            requires
                x * x + y * y <= limit * limit,
        ;
        lemma_sq_le(x, limit);
        lemma_sq_le(y, limit);
    } else {
        assert(!(x == 0 && y == 0)) by (nonlinear_arith)
            requires
                norm_sq(x, y) > limit * limit,
                norm_sq(x, y) == x * x + y * y,
                0 <= limit * limit,
        ;
        assert(0 <= limit * limit) by (nonlinear_arith);
        lemma_scale_bounds(x, y, limit);
    }
}

/// Rescales a nonzero vector to point the same way with magnitude close to
/// m (never above it); the zero vector is left alone rather than divided.
pub fn normalize_force(direction: Vec2, magnitude: i64) -> (r: Vec2)
    requires
        0 <= magnitude <= VEC_LIMIT,
        in_box(direction, VEC_LIMIT as int),
    ensures
        (r.x as int, r.y as int) == normalize_spec(
            direction.x as int,
            direction.y as int,
            magnitude as int,
        ),
        norm_sq(r.x as int, r.y as int) <= magnitude * magnitude,
        -magnitude <= r.x <= magnitude,
        -magnitude <= r.y <= magnitude,
        direction.is_zero() ==> r.is_zero(),
{
    proof {
        lemma_normalize_bounds(direction.x as int, direction.y as int, magnitude as int);
    }
    if direction.x == 0 && direction.y == 0 {
        Vec2 { x: 0, y: 0 }
    } else {
        proof {
            assert(direction.x * direction.x <= VEC_LIMIT * VEC_LIMIT
                && direction.y * direction.y <= VEC_LIMIT * VEC_LIMIT
                && 0 <= direction.x * direction.x
                && 0 <= direction.y * direction.y
                && -(VEC_LIMIT * VEC_LIMIT) <= direction.x * magnitude <= VEC_LIMIT * VEC_LIMIT
                && -(VEC_LIMIT * VEC_LIMIT) <= direction.y * magnitude <= VEC_LIMIT * VEC_LIMIT)
                by (nonlinear_arith)
                requires
                    -VEC_LIMIT <= direction.x <= VEC_LIMIT,
                    -VEC_LIMIT <= direction.y <= VEC_LIMIT,
                    0 <= magnitude <= VEC_LIMIT,
            ;
        }
        let nsq = direction.x * direction.x + direction.y * direction.y;
        let n = isqrt_ceil(nsq);
        proof {
            lemma_scale_bounds(direction.x as int, direction.y as int, magnitude as int);
        }
        let rx = div_trunc(direction.x * magnitude, n);
        let ry = div_trunc(direction.y * magnitude, n);
        Vec2 { x: rx, y: ry }
    }
}

/// Leaves a vector within the speed limit unchanged and rescales a faster
/// one down to the limit, comparing squared norms so the common path takes
/// no square root.
pub fn clamp(v: Vec2, limit: i64) -> (r: Vec2)
    requires
        0 <= limit <= VEC_LIMIT,
        in_box(v, VEC_LIMIT as int),
    ensures
        (r.x as int, r.y as int) == clamp_spec(v.x as int, v.y as int, limit as int),
        norm_sq(r.x as int, r.y as int) <= limit * limit,
        -limit <= r.x <= limit,
        -limit <= r.y <= limit,
{
    proof {
        lemma_clamp_bounds(v.x as int, v.y as int, limit as int);
        assert(v.x * v.x <= VEC_LIMIT * VEC_LIMIT
            && v.y * v.y <= VEC_LIMIT * VEC_LIMIT
            && 0 <= v.x * v.x
            && 0 <= v.y * v.y
            && 0 <= limit * limit <= VEC_LIMIT * VEC_LIMIT
            && -(VEC_LIMIT * VEC_LIMIT) <= v.x * limit <= VEC_LIMIT * VEC_LIMIT
            && -(VEC_LIMIT * VEC_LIMIT) <= v.y * limit <= VEC_LIMIT * VEC_LIMIT)
            by (nonlinear_arith)
            requires
                -VEC_LIMIT <= v.x <= VEC_LIMIT,
                -VEC_LIMIT <= v.y <= VEC_LIMIT,
                0 <= limit <= VEC_LIMIT,
        ;
    }
    let nsq = v.x * v.x + v.y * v.y;
    if nsq > limit * limit {
        proof {
            assert(!(v.x == 0 && v.y == 0)) by (nonlinear_arith)
                requires
                    v.x * v.x + v.y * v.y > limit * limit,
                    0 <= limit,
            ;
            lemma_scale_bounds(v.x as int, v.y as int, limit as int);
        }
        let n = isqrt_ceil(nsq);
        let rx = div_trunc(v.x * limit, n);
        let ry = div_trunc(v.y * limit, n);
        Vec2 { x: rx, y: ry }
    } else {
        v
    }
}

/// One axis of the toroidal wrap: a coordinate at or past the upper edge, or
/// below the lower edge, comes back in from the opposite side by exactly one
/// domain width.
pub open spec fn wrap1(x: int, w: int) -> int {
    if x >= w / 2 {
        x - w
    } else if x < -(w / 2) {
        x + w
    } else {
        x
    }
}

/// The coordinate lies in the half-open domain interval [-w/2, w/2).
pub open spec fn in_domain1(x: int, w: int) -> bool {
    -(w / 2) <= x < w / 2
}

/// The position lies inside the rectangular domain of width w and height h
/// centered at the origin.
pub open spec fn pos_in_domain(p: Vec2, w: int, h: int) -> bool {
    in_domain1(p.x as int, w) && in_domain1(p.y as int, h)
}

/// Velocity after one integration step: the three force contributions are
/// added to the old velocity and the speed is clamped.
pub open spec fn step_velocity(v: Vec2, sep: Vec2, ali: Vec2, coh: Vec2, limit: int) -> (int, int) {
    clamp_spec(
        v.x + sep.x + ali.x + coh.x,
        v.y + sep.y + ali.y + coh.y,
        limit,
    )
}

/// The motion integrator. It must run strictly after the three force passes
/// of a tick, since it consumes their outputs; each entity's update is
/// independent of every other entity's.
pub struct MovementSystem {
    pub max_velocity: i64,
}

impl MovementSystem {
    /// Adds each entity's force contributions to its velocity, clamps the
    /// speed to `max_velocity`, advances the position by the new velocity
    /// and wraps it across the domain edges.
    #[verifier::loop_isolation(false)]
    pub fn run(
        &self,
        width: i64,
        height: i64,
        alignments: &Vec<AlignmentComponent>,
        cohesions: &Vec<CohesionComponent>,
        separations: &Vec<SeparationComponent>,
        positions: &mut Vec<Position>,
        velocities: &mut Vec<Velocity>,
    )
        requires
            old(positions).len() == old(velocities).len(),
            alignments.len() == old(positions).len(),
            cohesions.len() == old(positions).len(),
            separations.len() == old(positions).len(),
            0 < width <= MAX_DIM,
            0 < height <= MAX_DIM,
            width % 2 == 0,
            height % 2 == 0,
            0 < self.max_velocity,
            2 * self.max_velocity <= width,
            2 * self.max_velocity <= height,
            forall|i: int|
                0 <= i < old(positions).len() ==> pos_in_domain(
                    (#[trigger] old(positions)@[i]).0,
                    width as int,
                    height as int,
                ),
            forall|i: int|
                0 <= i < old(velocities).len() ==> in_box(
                    (#[trigger] old(velocities)@[i]).0,
                    MAX_DIM as int,
                ),
            forall|i: int|
                0 <= i < alignments.len() ==> in_box(
                    (#[trigger] alignments@[i]).0,
                    MAX_DIM as int,
                ),
            forall|i: int|
                0 <= i < cohesions.len() ==> in_box((#[trigger] cohesions@[i]).0, MAX_DIM as int),
            forall|i: int|
                0 <= i < separations.len() ==> in_box(
                    (#[trigger] separations@[i]).0,
                    MAX_DIM as int,
                ),
        ensures
            final(positions).len() == old(positions).len(),
            final(velocities).len() == old(velocities).len(),
            forall|i: int|
                0 <= i < final(velocities).len() ==> (#[trigger] final(velocities)@[i]).0.x == step_velocity(
                    old(velocities)@[i].0,
                    separations@[i].0,
                    alignments@[i].0,
                    cohesions@[i].0,
                    self.max_velocity as int,
                ).0 && final(velocities)@[i].0.y == step_velocity(
                    old(velocities)@[i].0,
                    separations@[i].0,
                    alignments@[i].0,
                    cohesions@[i].0,
                    self.max_velocity as int,
                ).1,
            forall|i: int|
                0 <= i < final(velocities).len() ==> norm_sq(
                    (#[trigger] final(velocities)@[i]).0.x as int,
                    final(velocities)@[i].0.y as int,
                ) <= self.max_velocity * self.max_velocity,
            forall|i: int|
                0 <= i < final(positions).len() ==> (#[trigger] final(positions)@[i]).0.x == wrap1(
                    old(positions)@[i].0.x + final(velocities)@[i].0.x,
                    width as int,
                ) && final(positions)@[i].0.y == wrap1(
                    old(positions)@[i].0.y + final(velocities)@[i].0.y,
                    height as int,
                ),
            forall|i: int|
                0 <= i < final(positions).len() ==> pos_in_domain(
                    (#[trigger] final(positions)@[i]).0,
                    width as int,
                    height as int,
                ),
    {
        let half_w = div_trunc(width, 2);
        let half_h = div_trunc(height, 2);
        let n = positions.len();
        let mut i: usize = 0;
        while i < n
            invariant
                i <= n,
                positions.len() == n,
                velocities.len() == n,
                forall|k: int| i <= k < n ==> positions@[k] == old(positions)@[k],
                forall|k: int| i <= k < n ==> velocities@[k] == old(velocities)@[k],
                forall|k: int|
                    0 <= k < i ==> (#[trigger] velocities@[k]).0.x == step_velocity(
                        old(velocities)@[k].0,
                        separations@[k].0,
                        alignments@[k].0,
                        cohesions@[k].0,
                        self.max_velocity as int,
                    ).0 && velocities@[k].0.y == step_velocity(
                        old(velocities)@[k].0,
                        separations@[k].0,
                        alignments@[k].0,
                        cohesions@[k].0,
                        self.max_velocity as int,
                    ).1,
                forall|k: int|
                    0 <= k < i ==> norm_sq(
                        (#[trigger] velocities@[k]).0.x as int,
                        velocities@[k].0.y as int,
                    ) <= self.max_velocity * self.max_velocity,
                forall|k: int|
                    0 <= k < i ==> (#[trigger] positions@[k]).0.x == wrap1(
                        old(positions)@[k].0.x + velocities@[k].0.x,
                        width as int,
                    ) && positions@[k].0.y == wrap1(
                        old(positions)@[k].0.y + velocities@[k].0.y,
                        height as int,
                    ),
                forall|k: int|
                    0 <= k < i ==> pos_in_domain(
                        (#[trigger] positions@[k]).0,
                        width as int,
                        height as int,
                    ),
            decreases n - i,
        {
            let sep = separations[i].0;
            let ali = alignments[i].0;
            let coh = cohesions[i].0;
            let v = velocities[i].0;
            let fx = v.x + sep.x + ali.x + coh.x;
            let fy = v.y + sep.y + ali.y + coh.y;
            let nv = clamp(Vec2 { x: fx, y: fy }, self.max_velocity);
            velocities.set(i, Velocity(nv));
            let p = positions[i].0;
            let px = p.x + nv.x;
            let py = p.y + nv.y;
            let wx = if px >= half_w {
                px - width
            } else if px < -half_w {
                px + width
            } else {
                px
            };
            let wy = if py >= half_h {
                py - height
            } else if py < -half_h {
                py + height
            } else {
                py
            };
            positions.set(i, Position(Vec2 { x: wx, y: wy }));
            i = i + 1;
        }
    }
}

} // verus!
