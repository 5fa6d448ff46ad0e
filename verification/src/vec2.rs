//! Exact planar vectors and the integer arithmetic the engine is built on:
//! squared norms, truncating division and a ceiling square root.

use vstd::prelude::*;
use vstd::arithmetic::div_mod::{
    lemma_div_nonincreasing, lemma_div_pos_is_pos, lemma_fundamental_div_mod,
    lemma_fundamental_div_mod_converse, lemma_mod_division_less_than_divisor,
};
use vstd::arithmetic::mul::lemma_mul_is_commutative;

verus! {

/// Largest component magnitude accepted by the vector utilities: with both
/// components in this range, squared norms and magnitude scalings stay
/// inside `i64`.
pub const VEC_LIMIT: i64 = 2_000_000_000;

/// A planar vector with exact integer components.
#[derive(Clone, Copy, Debug, PartialEq, Eq, Structural)]
pub struct Vec2 {
    pub x: i64,
    pub y: i64,
}

impl Vec2 {
    /// The vector with the given components.
    pub fn new(x: i64, y: i64) -> (v: Vec2)
        ensures
            v.x == x,
            v.y == y,
    {
        Vec2 { x, y }
    }

    /// The zero vector.
    pub fn zero() -> (v: Vec2)
        ensures
            v.x == 0,
            v.y == 0,
    {
        Vec2 { x: 0, y: 0 }
    }

    /// Both components are zero.
    pub open spec fn is_zero(self) -> bool {
        self.x == 0 && self.y == 0
    }
}

/// Squared Euclidean norm of the vector (x, y).
pub open spec fn norm_sq(x: int, y: int) -> int {
    x * x + y * y
}

/// Squared Euclidean distance between two points.
pub open spec fn dist_sq(p: Vec2, q: Vec2) -> int {
    norm_sq(p.x - q.x, p.y - q.y)
}

/// Both components lie within [-b, b].
pub open spec fn in_box(v: Vec2, b: int) -> bool {
    -b <= v.x <= b && -b <= v.y <= b
}

/// Division truncating toward zero, for a positive divisor. The spec-level
/// `/` rounds toward negative infinity on negative dividends, which is not
/// what the machine division does; this is the machine's rounding.
pub open spec fn div_t(a: int, b: int) -> int {
    if a >= 0 {
        a / b
    } else {
        -((-a) / b)
    }
}

/// r is the ceiling square root of s: the least r with r * r >= s.
pub open spec fn is_sqrt_ceil(s: int, r: int) -> bool {
    0 <= r && s <= r * r && (r == 0 || (r - 1) * (r - 1) < s)
}

/// The ceiling square root of s.
pub open spec fn sqrt_ceil(s: int) -> int {
    choose|r: int| is_sqrt_ceil(s, r)
}

/// The ceiling square root exists, so `sqrt_ceil` satisfies its defining
/// predicate.
pub proof fn lemma_sqrt_ceil(s: int)
    ensures
        is_sqrt_ceil(s, sqrt_ceil(s)),
    decreases s,
{
    if s <= 0 {
        assert(is_sqrt_ceil(s, 0));
    } else {
        lemma_sqrt_ceil(s - 1);
        let r0 = sqrt_ceil(s - 1);
        if r0 * r0 >= s {
            assert(r0 != 0) by (nonlinear_arith)
                requires
                    r0 * r0 >= s,
                    s >= 1,
            ;
            assert(is_sqrt_ceil(s, r0));
        } else {
            assert(s <= (r0 + 1) * (r0 + 1)) by (nonlinear_arith)
                requires
                    s - 1 <= r0 * r0,
                    0 <= r0,
            ;
            assert(is_sqrt_ceil(s, r0 + 1));
        }
    }
}

/// The ceiling square root is unique.
pub proof fn lemma_sqrt_ceil_unique(s: int, r: int)
    requires
        is_sqrt_ceil(s, r),
    ensures
        r == sqrt_ceil(s),
{
    lemma_sqrt_ceil(s);
    let r2 = sqrt_ceil(s);
    if r < r2 {
        assert(r * r <= (r2 - 1) * (r2 - 1)) by (nonlinear_arith)
            requires
                0 <= r,
                r <= r2 - 1,
        ;
        assert(false);
    }
    if r2 < r {
        assert(r2 * r2 <= (r - 1) * (r - 1)) by (nonlinear_arith)
            requires
                0 <= r2,
                r2 <= r - 1,
        ;
        assert(false);
    }
}

/// If a^2 <= b^2 and b is nonnegative, then a lies within [-b, b].
pub proof fn lemma_sq_le(a: int, b: int)
    requires
        a * a <= b * b,
        0 <= b,
    ensures
        -b <= a <= b,
{
    if a > b {
        assert(a * a > b * b) by (nonlinear_arith)
            requires
                0 <= b < a,
        ;
    }
    if a < -b {
        assert(a * a > b * b) by (nonlinear_arith)
            requires
                0 <= b,
                a < -b,
        ;
    }
}

/// Truncating division by a positive divisor shrinks toward zero; when the
/// divisor divides exactly, it inverts the multiplication.
pub proof fn lemma_div_t_basics(a: int, b: int)
    requires
        0 < b,
    ensures
        0 <= a ==> 0 <= div_t(a, b) <= a && 0 <= div_t(a, b) * b <= a,
        a <= 0 ==> a <= div_t(a, b) <= 0 && a <= div_t(a, b) * b <= 0,
        a % b == 0 ==> div_t(a, b) * b == a,
{
    if a >= 0 {
        lemma_fundamental_div_mod(a, b);
        lemma_mod_division_less_than_divisor(a, b);
        lemma_div_pos_is_pos(a, b);
        lemma_div_nonincreasing(a, b);
        lemma_mul_is_commutative(a / b, b);
        assert(0 <= (a / b) * b) by (nonlinear_arith)
            requires
                0 <= a / b,
                0 < b,
        ;
    } else {
        let c = -a;
        let q = c / b;
        lemma_fundamental_div_mod(c, b);
        lemma_mod_division_less_than_divisor(c, b);
        lemma_div_pos_is_pos(c, b);
        lemma_div_nonincreasing(c, b);
        lemma_mul_is_commutative(q, b);
        // div_t(a, b) == -q, and 0 <= q * b <= c, so a <= (-q) * b <= 0
        assert((-q) * b == -(q * b) && 0 <= q * b) by (nonlinear_arith)
            requires
                0 <= q,
                0 < b,
        ;
        if a % b == 0 {
            // a == b * (a / b) exactly, hence c == (-(a / b)) * b + 0,
            // so q == -(a / b) and q * b == c.
            lemma_fundamental_div_mod(a, b);
            assert(c == (-(a / b)) * b + 0) by (nonlinear_arith)
                requires
                    a == b * (a / b),
                    c == -a,
            ;
            lemma_fundamental_div_mod_converse(c, b, -(a / b), 0);
            assert(c % b == 0);
            assert(q * b == c);
        }
    }
}

/// Squaring a truncating quotient never exceeds the squared dividend scaled
/// back: div_t(a, b)^2 * b^2 <= a^2.
pub proof fn lemma_div_t_sq(a: int, b: int)
    requires
        0 < b,
    ensures
        div_t(a, b) * div_t(a, b) * (b * b) <= a * a,
{
    let q = div_t(a, b);
    lemma_div_t_basics(a, b);
    if a >= 0 {
        assert(q * q * (b * b) <= a * a) by (nonlinear_arith)
            requires
                0 <= q * b,
                q * b <= a,
        ;
    } else {
        assert(q * q * (b * b) <= a * a) by (nonlinear_arith)
            requires
                a <= q * b,
                q * b <= 0,
        ;
    }
}

/// A dividend within [-b*c, b*c] divides (truncating) to within [-c, c].
pub proof fn lemma_div_t_le(a: int, b: int, c: int)
    requires
        0 < b,
        0 <= c,
        -(b * c) <= a <= b * c,
    ensures
        -c <= div_t(a, b) <= c,
{
    let q = div_t(a, b);
    lemma_div_t_basics(a, b);
    if a >= 0 {
        assert(q <= c) by (nonlinear_arith)
            requires
                0 < b,
                0 <= c,
                0 <= q,
                q * b <= a,
                a <= b * c,
        ;
    } else {
        assert(-c <= q) by (nonlinear_arith)
            requires
                0 < b,
                0 <= c,
                q <= 0,
                a <= q * b,
                -(b * c) <= a,
        ;
    }
}

/// Machine division truncating toward zero, verified against `div_t`.
pub fn div_trunc(a: i64, b: i64) -> (q: i64)
    requires
        0 < b,
        i64::MIN < a,
    ensures
        q as int == div_t(a as int, b as int),
{
    proof {
        lemma_div_t_basics(a as int, b as int);
    }
    let opt = a.checked_div(b);
    opt.unwrap()
}

/// The ceiling integer square root, by binary search.
pub fn isqrt_ceil(s: i64) -> (r: i64)
    requires
        0 <= s,
    ensures
        r as int == sqrt_ceil(s as int),
        is_sqrt_ceil(s as int, r as int),
        0 <= r <= 3_037_000_500,
{
    let su: u64 = s as u64;
    let mut lo: u64 = 0;
    let mut hi: u64 = 3_037_000_500;
    while lo < hi
        invariant
            lo <= hi <= 3_037_000_500,
            su <= i64::MAX as u64,
            hi * hi >= su,
            lo == 0 || (lo - 1) * (lo - 1) < su,
        decreases hi - lo,
    {
        let mid = lo + (hi - lo) / 2;
        proof {
            assert((mid as int) * (mid as int) <= 3_037_000_500 * 3_037_000_500)
                by (nonlinear_arith)
                requires
                    0 <= mid as int <= 3_037_000_500,
            ;
        }
        if mid * mid >= su {
            hi = mid;
        } else {
            lo = mid + 1;
        }
    }
    proof {
        assert(is_sqrt_ceil(s as int, lo as int));
        lemma_sqrt_ceil_unique(s as int, lo as int);
    }
    lo as i64
}

} // verus!
