//! Fixed-point plane geometry: 2-D vectors in milli-pixels, toroidal
//! wrap, squared distances, circle overlap, integer square root and a
//! rational sine approximation used for headings.

use vstd::prelude::*;
use vstd::arithmetic::div_mod::{
    lemma_div_is_ordered, lemma_div_multiples_vanish, lemma_div_pos_is_pos,
    lemma_fundamental_div_mod, lemma_mod_bound, lemma_mod_multiples_vanish, lemma_mod_sub_multiples_vanish,
    lemma_small_mod,
};

verus! {

/// A point or velocity in the plane. Positions are milli-pixels,
/// velocities milli-pixels per second.
#[derive(Clone, Copy, PartialEq, Eq, Structural, Debug)]
pub struct Vec2i {
    pub x: i64,
    pub y: i64,
}

/// One screen-wrap step on a single coordinate: a coordinate that fell
/// below zero re-enters just inside the far edge, one that reached the
/// far edge re-enters at zero, so the result always lands strictly
/// inside `[0, w)`. No clamping, no bounce.
pub open spec fn wrap1(c: int, w: int) -> int {
    if c < 0 {
        w - 1
    } else if c >= w {
        0
    } else {
        c
    }
}

/// `a * b / d` with the quotient rounded toward zero, as machine
/// division does.
pub open spec fn mul_div_spec(a: int, b: int, d: int) -> int {
    if a * b >= 0 {
        (a * b) / d
    } else {
        -((-(a * b)) / d)
    }
}

pub open spec fn sq(x: int) -> int {
    x * x
}

/// Squared Euclidean distance between two points.
pub open spec fn dist_sq(a: Vec2i, b: Vec2i) -> int {
    sq(a.x - b.x) + sq(a.y - b.y)
}

/// The one and only collision predicate: two circles overlap exactly
/// when the distance between their centers is less than the sum of
/// their radii (compared in squares, which is exact for integers).
pub open spec fn circles_overlap(pa: Vec2i, ra: int, pb: Vec2i, rb: int) -> bool {
    dist_sq(pa, pb) < sq(ra + rb)
}

/// Exact integer square root: the greatest `r` with `r * r <= n`.
pub open spec fn isqrt_spec(n: int) -> int
    decreases n,
{
    if n <= 0 {
        0
    } else {
        let r = isqrt_spec(n - 1);
        if (r + 1) * (r + 1) <= n {
            r + 1
        } else {
            r
        }
    }
}

/// `isqrt_spec(n)` is characterized by the usual bracket.
pub proof fn lemma_isqrt_bracket(n: int)
    requires
        n >= 0,
    ensures
        0 <= isqrt_spec(n),
        isqrt_spec(n) * isqrt_spec(n) <= n,
        n < (isqrt_spec(n) + 1) * (isqrt_spec(n) + 1),
    decreases n,
{
    if n > 0 {
        lemma_isqrt_bracket(n - 1);
        let r = isqrt_spec(n - 1);
        if (r + 1) * (r + 1) <= n {
            assert(n == (r + 1) * (r + 1));
            assert((r + 1) * (r + 1) < (r + 2) * (r + 2)) by (nonlinear_arith)
                requires
                    r >= 0,
            ;
        }
    }
}

/// Any `r` satisfying the bracket is the integer square root.
pub proof fn lemma_isqrt_unique(n: int, r: int)
    requires
        n >= 0,
        r >= 0,
        r * r <= n,
        n < (r + 1) * (r + 1),
    ensures
        r == isqrt_spec(n),
{
    lemma_isqrt_bracket(n);
    let s = isqrt_spec(n);
    assert(r == s) by (nonlinear_arith)
        requires
            r >= 0,
            s >= 0,
            r * r <= n,
            n < (r + 1) * (r + 1),
            s * s <= n,
            n < (s + 1) * (s + 1),
    ;
}

/// Wraps one coordinate back into the arena.
pub fn wrap_coord(c: i64, w: i64) -> (r: i64)
    requires
        0 < w,
    ensures
        r == wrap1(c as int, w as int),
        0 <= r < w,
{
    if c < 0 {
        w - 1
    } else if c >= w {
        0
    } else {
        c
    }
}

/// Every wrapped coordinate lands strictly inside `[0, w)`: the wrap
/// invariant of the arena.
pub proof fn lemma_wrap_bounds(c: int, w: int)
    requires
        w > 0,
    ensures
        0 <= wrap1(c, w) < w,
{
}

/// Circle overlap does not depend on the order of the two circles.
pub proof fn lemma_overlap_symmetric(pa: Vec2i, ra: int, pb: Vec2i, rb: int)
    ensures
        circles_overlap(pa, ra, pb, rb) == circles_overlap(pb, rb, pa, ra),
{
    assert((pa.x - pb.x) * (pa.x - pb.x) == (pb.x - pa.x) * (pb.x - pa.x)) by (nonlinear_arith);
    assert((pa.y - pb.y) * (pa.y - pb.y) == (pb.y - pa.y) * (pb.y - pa.y)) by (nonlinear_arith);
    assert(sq(ra + rb) == sq(rb + ra));
}

/// `a * b / d`, rounding toward zero, with the intermediate product
/// guaranteed to fit in `i64`.
pub fn mul_div(a: i64, b: i64, d: i64) -> (r: i64)
    requires
        d > 0,
        -3_000_000_000 <= a <= 3_000_000_000,
        -3_000_000_000 <= b <= 3_000_000_000,
    ensures
        r == mul_div_spec(a as int, b as int, d as int),
        a >= 0 && b >= 0 ==> 0 <= r <= a * b,
{
    proof {
        assert(-9_000_000_000_000_000_000 <= (a as int) * (b as int) <= 9_000_000_000_000_000_000)
            by (nonlinear_arith)
            requires
                -3_000_000_000 <= a <= 3_000_000_000,
                -3_000_000_000 <= b <= 3_000_000_000,
        ;
    }
    let p: i64 = a * b;
    if p >= 0 {
        let q: u64 = (p as u64) / (d as u64);
        proof {
            assert((p as int) / (d as int) <= p as int) by (nonlinear_arith)
                requires
                    p >= 0,
                    d > 0,
            ;
        }
        q as i64
    } else {
        let m: u64 = (-p) as u64;
        let q: u64 = m / (d as u64);
        proof {
            assert((m as int) / (d as int) <= m as int) by (nonlinear_arith)
                requires
                    m >= 0,
                    d > 0,
            ;
        }
        -(q as i64)
    }
}

/// Scaling a value of magnitude at most `d` by `b / d` yields a value
/// of magnitude at most `b`.
pub proof fn lemma_mul_div_bound(a: int, b: int, d: int)
    requires
        d > 0,
        -d <= a <= d,
        0 <= b,
    ensures
        -b <= mul_div_spec(a, b, d) <= b,
{
    lemma_div_multiples_vanish(b, d);
    assert((d * b) / d == b);
    if a * b >= 0 {
        lemma_div_pos_is_pos(a * b, d);
        assert(a * b <= d * b) by (nonlinear_arith)
            requires
                a <= d,
                b >= 0,
        ;
        lemma_div_is_ordered(a * b, d * b, d);
    } else {
        let m = -(a * b);
        lemma_div_pos_is_pos(m, d);
        assert(-(a * b) <= d * b) by (nonlinear_arith)
            requires
                -d <= a,
                0 <= b,
        ;
        lemma_div_is_ordered(m, d * b, d);
    }
}

/// If the product `a * b` is confined to `[-bound * d, bound * d]`,
/// the scaled value `a * b / d` is confined to `[-bound, bound]`.
pub proof fn lemma_mul_div_scaled(a: int, b: int, d: int, bound: int)
    requires
        d > 0,
        0 <= bound,
        -(bound * d) <= a * b <= bound * d,
    ensures
        -bound <= mul_div_spec(a, b, d) <= bound,
{
    lemma_div_multiples_vanish(bound, d);
    assert((d * bound) / d == bound);
    assert(d * bound == bound * d);
    if a * b >= 0 {
        lemma_div_pos_is_pos(a * b, d);
        lemma_div_is_ordered(a * b, bound * d, d);
    } else {
        let m = -(a * b);
        lemma_div_pos_is_pos(m, d);
        lemma_div_is_ordered(m, bound * d, d);
    }
}

/// Bound on `a * b / d` from separate bounds on the factors.
pub proof fn lemma_mul_div_range(a: int, amax: int, b: int, bmax: int, d: int, bound: int)
    requires
        d > 0,
        0 <= amax,
        -amax <= a <= amax,
        0 <= b <= bmax,
        amax * bmax <= bound * d,
        0 <= bound,
    ensures
        -bound <= mul_div_spec(a, b, d) <= bound,
{
    assert(-(amax * bmax) <= a * b <= amax * bmax) by (nonlinear_arith)
        requires
            0 <= amax,
            -amax <= a <= amax,
            0 <= b <= bmax,
    ;
    lemma_mul_div_scaled(a, b, d, bound);
}

/// Rounding toward zero keeps the square of a scaled value equal to
/// the square of the scaled magnitude.
proof fn lemma_mul_div_spec_abs(x: int, b: int, d: int)
    requires
        d > 0,
        0 <= b,
    ensures
        mul_div_spec(x, b, d) * mul_div_spec(x, b, d) == ((if x >= 0 {
            x
        } else {
            -x
        }) * b / d) * ((if x >= 0 {
            x
        } else {
            -x
        }) * b / d),
{
    if x >= 0 {
        assert(x * b >= 0) by (nonlinear_arith)
            requires
                x >= 0,
                b >= 0,
        ;
        assert(mul_div_spec(x, b, d) == x * b / d);
    } else {
        assert(x * b <= 0 && -(x * b) == (-x) * b) by (nonlinear_arith)
            requires
                x < 0,
                b >= 0,
        ;
        if x * b >= 0 {
            assert(x * b == 0);
            assert((-x) * b == 0);
            assert(mul_div_spec(x, b, d) == x * b / d);
            assert(x * b / d == (-x) * b / d);
        } else {
            let q = (-x) * b / d;
            assert(mul_div_spec(x, b, d) == -q);
            assert((-q) * (-q) == q * q) by (nonlinear_arith);
        }
    }
}

/// Scaling a vector of squared length `ls` by `1000 / isqrt(ls)`,
/// rounding each component toward zero, yields a vector whose squared
/// length is within half a percent of one million.
pub proof fn lemma_unit_norm_bracket(x: int, y: int, ls: int, len: int, ux: int, uy: int)
    requires
        ls == x * x + y * y,
        250_000 <= ls <= 1_000_000,
        0 < len,
        len * len <= ls,
        ls < (len + 1) * (len + 1),
        -len <= x <= len,
        -len <= y <= len,
        ux == mul_div_spec(x, 1000, len),
        uy == mul_div_spec(y, 1000, len),
    ensures
        995_000 <= ux * ux + uy * uy <= 1_004_004,
{
    assert(500 <= len <= 1000) by (nonlinear_arith)
        requires
            0 < len,
            len * len <= ls,
            ls < (len + 1) * (len + 1),
            250_000 <= ls <= 1_000_000,
    ;
    let a = if x >= 0 { x } else { -x };
    let b = if y >= 0 { y } else { -y };
    let q1 = a * 1000 / len;
    let q2 = b * 1000 / len;
    assert((-x) * (-x) == x * x) by (nonlinear_arith);
    assert((-y) * (-y) == y * y) by (nonlinear_arith);
    assert(a * a == x * x && b * b == y * y);
    lemma_mul_div_spec_abs(x, 1000, len);
    lemma_mul_div_spec_abs(y, 1000, len);
    assert(ux * ux == q1 * q1);
    assert(uy * uy == q2 * q2);
    lemma_fundamental_div_mod(a * 1000, len);
    lemma_fundamental_div_mod(b * 1000, len);
    lemma_mod_bound(a * 1000, len);
    lemma_mod_bound(b * 1000, len);
    lemma_div_pos_is_pos(a * 1000, len);
    lemma_div_pos_is_pos(b * 1000, len);
    assert(len * q1 <= a * 1000 < len * (q1 + 1)) by (nonlinear_arith)
        requires
            a * 1000 == len * q1 + (a * 1000) % len,
            0 <= (a * 1000) % len < len,
    ;
    assert(len * q2 <= b * 1000 < len * (q2 + 1)) by (nonlinear_arith)
        requires
            b * 1000 == len * q2 + (b * 1000) % len,
            0 <= (b * 1000) % len < len,
    ;
    // q1, q2 at most 1000 since a, b are at most len
    lemma_div_multiples_vanish(1000, len);
    assert((len * 1000) / len == 1000);
    assert(a * 1000 <= len * 1000) by (nonlinear_arith)
        requires
            a <= len,
    ;
    assert(b * 1000 <= len * 1000) by (nonlinear_arith)
        requires
            b <= len,
    ;
    lemma_div_is_ordered(a * 1000, len * 1000, len);
    lemma_div_is_ordered(b * 1000, len * 1000, len);
    assert(q1 <= 1000 && q2 <= 1000);
    // upper bound: square each division bracket and sum
    assert((len * q1) * (len * q1) <= (a * 1000) * (a * 1000)) by (nonlinear_arith)
        requires
            0 <= len * q1,
            len * q1 <= a * 1000,
    ;
    assert((len * q2) * (len * q2) <= (b * 1000) * (b * 1000)) by (nonlinear_arith)
        requires
            0 <= len * q2,
            len * q2 <= b * 1000,
    ;
    assert((len * q1) * (len * q1) == (len * len) * (q1 * q1)) by (nonlinear_arith);
    assert((len * q2) * (len * q2) == (len * len) * (q2 * q2)) by (nonlinear_arith);
    assert((a * 1000) * (a * 1000) == (a * a) * 1_000_000) by (nonlinear_arith);
    assert((b * 1000) * (b * 1000) == (b * b) * 1_000_000) by (nonlinear_arith);
    assert((len * len) * (q1 * q1) + (len * len) * (q2 * q2) == (q1 * q1 + q2 * q2) * (len * len))
        by (nonlinear_arith);
    assert((a * a) * 1_000_000 + (b * b) * 1_000_000 == ls * 1_000_000);
    assert((q1 * q1 + q2 * q2) * (len * len) <= ls * 1_000_000);
    assert(250_000 * ((len + 1) * (len + 1)) <= 251_001 * (len * len)) by (nonlinear_arith)
        requires
            500 <= len,
    ;
    assert(q1 * q1 + q2 * q2 <= 1_004_004) by (nonlinear_arith)
        requires
            (q1 * q1 + q2 * q2) * (len * len) <= ls * 1_000_000,
            ls < (len + 1) * (len + 1),
            250_000 * ((len + 1) * (len + 1)) <= 251_001 * (len * len),
            0 < len,
            0 <= q1,
            0 <= q2,
    ;
    // lower bound: the same brackets from above
    assert((a * 1000) * (a * 1000) < (len * (q1 + 1)) * (len * (q1 + 1))) by (nonlinear_arith)
        requires
            0 <= a * 1000,
            a * 1000 < len * (q1 + 1),
    ;
    assert((b * 1000) * (b * 1000) < (len * (q2 + 1)) * (len * (q2 + 1))) by (nonlinear_arith)
        requires
            0 <= b * 1000,
            b * 1000 < len * (q2 + 1),
    ;
    assert((len * (q1 + 1)) * (len * (q1 + 1)) == (len * len) * ((q1 + 1) * (q1 + 1)))
        by (nonlinear_arith);
    assert((len * (q2 + 1)) * (len * (q2 + 1)) == (len * len) * ((q2 + 1) * (q2 + 1)))
        by (nonlinear_arith);
    assert((len * len) * ((q1 + 1) * (q1 + 1)) + (len * len) * ((q2 + 1) * (q2 + 1)) == ((q1 + 1)
        * (q1 + 1) + (q2 + 1) * (q2 + 1)) * (len * len)) by (nonlinear_arith);
    assert(ls * 1_000_000 < ((q1 + 1) * (q1 + 1) + (q2 + 1) * (q2 + 1)) * (len * len));
    assert(1_000_000 < (q1 + 1) * (q1 + 1) + (q2 + 1) * (q2 + 1)) by (nonlinear_arith)
        requires
            len * len <= ls,
            ls * 1_000_000 < ((q1 + 1) * (q1 + 1) + (q2 + 1) * (q2 + 1)) * (len * len),
            0 < len,
    ;
    assert((q1 + 1) * (q1 + 1) + (q2 + 1) * (q2 + 1) <= q1 * q1 + q2 * q2 + 4002) by (nonlinear_arith)
        requires
            0 <= q1 <= 1000,
            0 <= q2 <= 1000,
    ;
}

/// Scaling a near-unit vector (squared length within the bracket the
/// headings satisfy) by `speed / 1000`, rounding each component
/// toward zero, yields a velocity whose squared length is within one
/// percent of the squared speed.
pub proof fn lemma_speed_norm_bracket(ux: int, uy: int, speed: int, vx: int, vy: int)
    requires
        -1000 <= ux <= 1000,
        -1000 <= uy <= 1000,
        995_000 <= ux * ux + uy * uy <= 1_004_004,
        1000 <= speed <= 1_000_000,
        vx == mul_div_spec(ux, speed, 1000),
        vy == mul_div_spec(uy, speed, 1000),
    ensures
        990_000 * (speed * speed) <= 1_000_000 * (vx * vx + vy * vy),
        1_000_000 * (vx * vx + vy * vy) <= 1_004_004 * (speed * speed),
{
    let a = if ux >= 0 { ux } else { -ux };
    let b = if uy >= 0 { uy } else { -uy };
    let q1 = a * speed / 1000;
    let q2 = b * speed / 1000;
    assert((-ux) * (-ux) == ux * ux) by (nonlinear_arith);
    assert((-uy) * (-uy) == uy * uy) by (nonlinear_arith);
    assert(a * a == ux * ux && b * b == uy * uy);
    lemma_mul_div_spec_abs(ux, speed, 1000);
    lemma_mul_div_spec_abs(uy, speed, 1000);
    assert(vx * vx == q1 * q1);
    assert(vy * vy == q2 * q2);
    lemma_fundamental_div_mod(a * speed, 1000);
    lemma_fundamental_div_mod(b * speed, 1000);
    lemma_mod_bound(a * speed, 1000);
    lemma_mod_bound(b * speed, 1000);
    lemma_div_pos_is_pos(a * speed, 1000);
    lemma_div_pos_is_pos(b * speed, 1000);
    assert(1000 * q1 <= a * speed < 1000 * (q1 + 1)) by (nonlinear_arith)
        requires
            a * speed == 1000 * q1 + (a * speed) % 1000,
            0 <= (a * speed) % 1000 < 1000,
    ;
    assert(1000 * q2 <= b * speed < 1000 * (q2 + 1)) by (nonlinear_arith)
        requires
            b * speed == 1000 * q2 + (b * speed) % 1000,
            0 <= (b * speed) % 1000 < 1000,
    ;
    // q1, q2 at most speed since a, b are at most 1000
    lemma_div_multiples_vanish(speed, 1000);
    assert((1000 * speed) / 1000 == speed);
    assert(a * speed <= 1000 * speed) by (nonlinear_arith)
        requires
            a <= 1000,
            0 <= speed,
    ;
    assert(b * speed <= 1000 * speed) by (nonlinear_arith)
        requires
            b <= 1000,
            0 <= speed,
    ;
    lemma_div_is_ordered(a * speed, 1000 * speed, 1000);
    lemma_div_is_ordered(b * speed, 1000 * speed, 1000);
    assert(q1 <= speed && q2 <= speed);
    // upper bound: square each division bracket and sum
    assert((1000 * q1) * (1000 * q1) <= (a * speed) * (a * speed)) by (nonlinear_arith)
        requires
            0 <= 1000 * q1,
            1000 * q1 <= a * speed,
    ;
    assert((1000 * q2) * (1000 * q2) <= (b * speed) * (b * speed)) by (nonlinear_arith)
        requires
            0 <= 1000 * q2,
            1000 * q2 <= b * speed,
    ;
    assert((1000 * q1) * (1000 * q1) == (q1 * q1) * 1_000_000) by (nonlinear_arith);
    assert((1000 * q2) * (1000 * q2) == (q2 * q2) * 1_000_000) by (nonlinear_arith);
    assert((a * speed) * (a * speed) == (a * a) * (speed * speed)) by (nonlinear_arith);
    assert((b * speed) * (b * speed) == (b * b) * (speed * speed)) by (nonlinear_arith);
    assert((a * a) * (speed * speed) + (b * b) * (speed * speed) == (a * a + b * b) * (speed
        * speed)) by (nonlinear_arith);
    assert((q1 * q1) * 1_000_000 + (q2 * q2) * 1_000_000 == (q1 * q1 + q2 * q2) * 1_000_000)
        by (nonlinear_arith);
    assert((q1 * q1 + q2 * q2) * 1_000_000 <= (a * a + b * b) * (speed * speed));
    assert((a * a + b * b) * (speed * speed) <= 1_004_004 * (speed * speed)) by (nonlinear_arith)
        requires
            a * a + b * b <= 1_004_004,
            0 <= speed,
    ;
    assert(1_000_000 * (vx * vx + vy * vy) == (q1 * q1 + q2 * q2) * 1_000_000);
    // lower bound: the same brackets from above
    assert((a * speed) * (a * speed) < (1000 * (q1 + 1)) * (1000 * (q1 + 1))) by (nonlinear_arith)
        requires
            0 <= a * speed,
            a * speed < 1000 * (q1 + 1),
    ;
    assert((b * speed) * (b * speed) < (1000 * (q2 + 1)) * (1000 * (q2 + 1))) by (nonlinear_arith)
        requires
            0 <= b * speed,
            b * speed < 1000 * (q2 + 1),
    ;
    assert((1000 * (q1 + 1)) * (1000 * (q1 + 1)) == ((q1 + 1) * (q1 + 1)) * 1_000_000)
        by (nonlinear_arith);
    assert((1000 * (q2 + 1)) * (1000 * (q2 + 1)) == ((q2 + 1) * (q2 + 1)) * 1_000_000)
        by (nonlinear_arith);
    assert(((q1 + 1) * (q1 + 1)) * 1_000_000 + ((q2 + 1) * (q2 + 1)) * 1_000_000 == ((q1 + 1) * (q1
        + 1) + (q2 + 1) * (q2 + 1)) * 1_000_000) by (nonlinear_arith);
    assert((a * a + b * b) * (speed * speed) < ((q1 + 1) * (q1 + 1) + (q2 + 1) * (q2 + 1))
        * 1_000_000);
    assert(995_000 * (speed * speed) <= (a * a + b * b) * (speed * speed)) by (nonlinear_arith)
        requires
            995_000 <= a * a + b * b,
            0 <= speed,
    ;
    assert(((q1 + 1) * (q1 + 1) + (q2 + 1) * (q2 + 1)) <= q1 * q1 + q2 * q2 + 4 * speed + 2)
        by (nonlinear_arith)
        requires
            0 <= q1 <= speed,
            0 <= q2 <= speed,
    ;
    assert((q1 * q1 + q2 * q2 + 4 * speed + 2) * 1_000_000 == (q1 * q1 + q2 * q2) * 1_000_000 + 4_000_000
        * speed + 2_000_000) by (nonlinear_arith);
    assert(5000 * (speed * speed) >= 4_000_000 * speed + 2_000_000) by (nonlinear_arith)
        requires
            speed >= 1000,
    ;
    assert(990_000 * (speed * speed) <= 1_000_000 * (q1 * q1 + q2 * q2)) by (nonlinear_arith)
        requires
            995_000 * (speed * speed) < (q1 * q1 + q2 * q2) * 1_000_000 + 4_000_000 * speed
                + 2_000_000,
            5000 * (speed * speed) >= 4_000_000 * speed + 2_000_000,
    ;
}

/// A full turn, in milli-radians (`2 * pi`, rounded to an even split
/// into two half-turns of 3142 each).
pub const TAU_MRAD: i64 = 6284;

/// Normalizes an accumulated angle into `[0, TAU_MRAD)`.
pub fn rot_wrap(r: i64) -> (o: i64)
    requires
        -100_000 <= r <= 100_000,
    ensures
        o == (r as int) % (TAU_MRAD as int),
        0 <= o < TAU_MRAD,
{
    let s: u64 = (r + 100_544) as u64;
    let o: u64 = s % 6284;
    proof {
        lemma_mod_multiples_vanish(16, r as int, 6284);
        assert(s as int == 6284 * 16 + r);
    }
    o as i64
}

/// Rational sine approximation on a half-turn (`0 <= x <= 3142`
/// milli-radians), scaled so that a unit amplitude is 1000. It is
/// exact at 0, at the quarter turn and at the half turn.
pub open spec fn sin_half(x: int) -> int {
    (16_000 * x * (3142 - x)) / (49_360_820 - 4 * x * (3142 - x))
}

/// Sine of an angle in `[0, TAU_MRAD)` milli-radians, amplitude 1000:
/// the rational approximation on the first half-turn, mirrored with
/// opposite sign on the second.
pub open spec fn sin_mrad(x: int) -> int {
    if x <= 3142 {
        sin_half(x)
    } else {
        -sin_half(x - 3142)
    }
}

/// Cosine as the sine shifted by a quarter turn.
pub open spec fn cos_mrad(x: int) -> int {
    sin_mrad((x + 1571) % 6284)
}

fn sin_half_ex(x: i64) -> (r: i64)
    requires
        0 <= x <= 3142,
    ensures
        r == sin_half(x as int),
        0 <= r <= 1000,
{
    proof {
        assert(0 <= (x as int) * (3142 - x as int) <= 2_468_041) by (nonlinear_arith)
            requires
                0 <= x <= 3142,
        ;
        assert(16_000 * ((x as int) * (3142 - x as int)) == 16_000 * (x as int) * (3142
            - x as int)) by (nonlinear_arith);
        assert(4 * ((x as int) * (3142 - x as int)) == 4 * (x as int) * (3142 - x as int))
            by (nonlinear_arith);
    }
    let p: i64 = x * (3142 - x);
    let num: i64 = 16_000 * p;
    let den: i64 = 49_360_820 - 4 * p;
    let q: u64 = (num as u64) / (den as u64);
    proof {
        lemma_div_pos_is_pos(num as int, den as int);
        lemma_div_multiples_vanish(1000, den as int);
        assert(((den as int) * 1000) / (den as int) == 1000);
        assert(num as int <= (den as int) * 1000);
        lemma_div_is_ordered(num as int, (den as int) * 1000, den as int);
    }
    q as i64
}

/// Sine of a normalized angle, amplitude 1000.
pub fn sin_mr(x: i64) -> (r: i64)
    requires
        0 <= x < TAU_MRAD,
    ensures
        r == sin_mrad(x as int),
        -1000 <= r <= 1000,
{
    if x <= 3142 {
        sin_half_ex(x)
    } else {
        -sin_half_ex(x - 3142)
    }
}

/// Cosine of a normalized angle, amplitude 1000.
pub fn cos_mr(x: i64) -> (r: i64)
    requires
        0 <= x < TAU_MRAD,
    ensures
        r == cos_mrad(x as int),
        -1000 <= r <= 1000,
{
    let y: i64 = x + 1571;
    if y >= 6284 {
        proof {
            lemma_mod_sub_multiples_vanish(y as int, 6284);
            lemma_small_mod((y - 6284) as nat, 6284);
        }
        sin_mr(y - 6284)
    } else {
        proof {
            lemma_small_mod(y as nat, 6284);
        }
        sin_mr(y)
    }
}

/// The direction a ship with the given rotation points at: rotation
/// zero faces straight up the screen, angles grow clockwise. The
/// result is a unit vector scaled by 1000.
pub fn facing(rot: i64) -> (d: Vec2i)
    requires
        0 <= rot < TAU_MRAD,
    ensures
        d.x == sin_mrad(rot as int),
        d.y == -cos_mrad(rot as int),
        -1000 <= d.x <= 1000,
        -1000 <= d.y <= 1000,
{
    Vec2i { x: sin_mr(rot), y: -cos_mr(rot) }
}

/// Squared distance between two points of the arena (plus the small
/// margin a fresh bullet can stick out by).
pub fn dist_sq_ex(a: Vec2i, b: Vec2i) -> (r: i64)
    requires
        -1_000_000 <= a.x <= 1_100_000_000,
        -1_000_000 <= a.y <= 1_100_000_000,
        -1_000_000 <= b.x <= 1_100_000_000,
        -1_000_000 <= b.y <= 1_100_000_000,
    ensures
        r == dist_sq(a, b),
        r >= 0,
{
    let dx: i64 = a.x - b.x;
    let dy: i64 = a.y - b.y;
    proof {
        assert(0 <= (dx as int) * (dx as int) <= 2_000_000_000_000_000_000) by (nonlinear_arith)
            requires
                -1_200_000_000 <= dx <= 1_200_000_000,
        ;
        assert(0 <= (dy as int) * (dy as int) <= 2_000_000_000_000_000_000) by (nonlinear_arith)
            requires
                -1_200_000_000 <= dy <= 1_200_000_000,
        ;
    }
    dx * dx + dy * dy
}

/// The exact collision test of the engine: strictly closer than the
/// sum of the radii. Touching circles do not overlap.
pub fn hits(pa: Vec2i, ra: i64, pb: Vec2i, rb: i64) -> (r: bool)
    requires
        -1_000_000 <= pa.x <= 1_100_000_000,
        -1_000_000 <= pa.y <= 1_100_000_000,
        -1_000_000 <= pb.x <= 1_100_000_000,
        -1_000_000 <= pb.y <= 1_100_000_000,
        0 <= ra <= 1_000_000,
        0 <= rb <= 1_000_000,
    ensures
        r == circles_overlap(pa, ra as int, pb, rb as int),
{
    let d = dist_sq_ex(pa, pb);
    let s: i64 = ra + rb;
    proof {
        assert(0 <= (s as int) * (s as int) <= 4_000_000_000_000) by (nonlinear_arith)
            requires
                0 <= s <= 2_000_000,
        ;
    }
    d < s * s
}

/// Integer square root of a 64-bit value, by bisection.
pub fn isqrt64(n: u64) -> (r: u64)
    ensures
        r == isqrt_spec(n as int),
        r * r <= n,
{
    let mut lo: u64 = 0;
    let mut hi: u64 = 4_294_967_296;
    proof {
        assert((n as int) < 4_294_967_296 * 4_294_967_296) by (nonlinear_arith)
            requires
                n <= 0xffff_ffff_ffff_ffff,
        ;
    }
    while hi - lo > 1
        invariant
            0 <= lo < hi <= 4_294_967_296,
            (lo as int) * (lo as int) <= n as int,
            (n as int) < (hi as int) * (hi as int),
        decreases hi - lo,
    {
        let mid: u64 = lo + (hi - lo) / 2;
        proof {
            assert((mid as int) * (mid as int) < 0x1_0000_0000_0000_0000) by (nonlinear_arith)
                requires
                    mid < 4_294_967_296,
            ;
        }
        if mid * mid <= n {
            lo = mid;
        } else {
            hi = mid;
        }
    }
    proof {
        assert((lo as int) + 1 == hi as int);
        lemma_isqrt_unique(n as int, lo as int);
        assert((lo as int) * (lo as int) <= n as int);
    }
    lo
}

} // verus!
