//! The engine's random source. Only the two raw calls into the host
//! game library's generator are trusted; every derived draw (bounded
//! values, signed ranges, unit headings) is verified on top of them.

use vstd::prelude::*;
use crate::geom::{isqrt64, lemma_isqrt_bracket, lemma_mul_div_bound, lemma_unit_norm_bracket, mul_div, Vec2i};

verus! {

/// Relies on macroquad::rand::rand (quad_rand's global PCG step):
/// returns some 32-bit value; nothing further is assumed of it.
#[verifier::external_body]
fn random_u32() -> u32 {
    macroquad::rand::rand()
}

/// Relies on macroquad::rand::srand: reseeds the global generator so
/// that later draws are a deterministic function of the seed.
#[verifier::external_body]
pub fn seed_random(seed: u64) {
    macroquad::rand::srand(seed)
}

/// A draw in `[0, n)`.
pub fn rand_below(n: u32) -> (r: u32)
    requires
        n > 0,
    ensures
        r < n,
{
    random_u32() % n
}

/// A draw in `[lo, hi]`.
pub fn rand_in(lo: i64, hi: i64) -> (r: i64)
    requires
        -2_000_000_000 <= lo <= hi <= 2_000_000_000,
    ensures
        lo <= r <= hi,
{
    let span: u32 = (hi - lo) as u32 + 1;
    lo + rand_below(span) as i64
}

/// A randomly headed vector of length close to 1000, drawn by
/// rejection from an annulus and rescaled; its components never
/// exceed 1000 in magnitude and its squared length stays within half
/// a percent of one million, whatever the generator returns. Falls
/// back to a fixed heading if the bounded number of draws is
/// exhausted (which a working generator does not reach in practice).
pub fn rand_unit() -> (u: Vec2i)
    ensures
        -1000 <= u.x <= 1000,
        -1000 <= u.y <= 1000,
        995_000 <= u.x * u.x + u.y * u.y <= 1_004_004,
{
    let mut tries: u32 = 100_000;
    while tries > 0
        invariant
            true,
        decreases tries,
    {
        let x: i64 = rand_in(-1000, 1000);
        let y: i64 = rand_in(-1000, 1000);
        proof {
            assert(0 <= (x as int) * (x as int) <= 1_000_000) by (nonlinear_arith)
                requires
                    -1000 <= x <= 1000,
            ;
            assert(0 <= (y as int) * (y as int) <= 1_000_000) by (nonlinear_arith)
                requires
                    -1000 <= y <= 1000,
            ;
        }
        let ls: i64 = x * x + y * y;
        if 250_000 <= ls && ls <= 1_000_000 {
            let len64: u64 = isqrt64(ls as u64);
            proof {
                lemma_isqrt_bracket(ls as int);
                assert(len64 as int == crate::geom::isqrt_spec(ls as int));
                assert(len64 <= 1000) by (nonlinear_arith)
                    requires
                        (len64 as int) * (len64 as int) <= 1_000_000,
                        len64 >= 0,
                ;
            }
            let len: i64 = len64 as i64;
            proof {
                assert((x as int) * (x as int) <= ls as int);
                assert((len as int) * (len as int) <= ls as int);
                assert((ls as int) < (len as int + 1) * (len as int + 1));
                assert(-(len as int) <= x as int <= len as int) by (nonlinear_arith)
                    requires
                        (x as int) * (x as int) <= ls as int,
                        (ls as int) < (len as int + 1) * (len as int + 1),
                        0 <= len as int,
                ;
                assert(-(len as int) <= y as int <= len as int) by (nonlinear_arith)
                    requires
                        (y as int) * (y as int) <= ls as int,
                        (ls as int) < (len as int + 1) * (len as int + 1),
                        0 <= len as int,
                ;
                assert(500 <= len as int) by (nonlinear_arith)
                    requires
                        250_000 <= ls as int,
                        (ls as int) < (len as int + 1) * (len as int + 1),
                        0 <= len as int,
                ;
                lemma_mul_div_bound(x as int, 1000, len as int);
                lemma_mul_div_bound(y as int, 1000, len as int);
            }
            let ux = mul_div(x, 1000, len);
            let uy = mul_div(y, 1000, len);
            proof {
                lemma_unit_norm_bracket(
                    x as int,
                    y as int,
                    ls as int,
                    len as int,
                    ux as int,
                    uy as int,
                );
            }
            return Vec2i { x: ux, y: uy };
        }
        tries = tries - 1;
    }
    Vec2i { x: 1000, y: 0 }
}

} // verus!
