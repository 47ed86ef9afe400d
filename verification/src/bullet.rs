//! Bullets: straight-line motion at a fixed muzzle speed, a finite
//! lifetime, toroidal wrap. Leaving the screen never kills a bullet;
//! only collisions and lifetime expiry do.

use vstd::prelude::*;
use crate::geom::{mul_div, mul_div_spec, wrap_coord, wrap1, Vec2i};

verus! {

/// Collision radius of a bullet, milli-pixels.
pub const BULLET_RADIUS: i64 = 4_000;

/// Muzzle speed, milli-pixels per second.
pub const BULLET_SPEED: i64 = 600_000;

/// Initial lifetime, microseconds.
pub const BULLET_LIFETIME: i64 = 1_500_000;

/// One projectile.
#[derive(Clone, Copy, PartialEq, Eq, Structural, Debug)]
pub struct Bullet {
    pub pos: Vec2i,
    pub vel: Vec2i,
    /// Remaining lifetime, microseconds; the bullet dies when it
    /// reaches zero.
    pub lifetime: i64,
    pub alive: bool,
}

/// Well-formedness of a bullet. A just-fired bullet may stick out of
/// the arena by up to its muzzle offset until its first wrap.
pub open spec fn bullet_ok(b: Bullet) -> bool {
    &&& -32_000 <= b.pos.x <= 1_000_032_000
    &&& -32_000 <= b.pos.y <= 1_000_032_000
    &&& -BULLET_SPEED <= b.vel.x <= BULLET_SPEED
    &&& -BULLET_SPEED <= b.vel.y <= BULLET_SPEED
    &&& 0 <= b.lifetime <= BULLET_LIFETIME
}

/// How one frame transforms a bullet: the lifetime burns down by the
/// frame delta; a bullet whose lifetime is spent dies on the spot and
/// is not moved further; otherwise it integrates and wraps.
pub open spec fn bullet_stepped(b0: Bullet, b1: Bullet, dt: int, w: int, h: int) -> bool {
    &&& b1.vel == b0.vel
    &&& (dt >= b0.lifetime ==> {
        &&& !b1.alive
        &&& b1.lifetime == 0
        &&& b1.pos == b0.pos
    })
    &&& (dt < b0.lifetime ==> {
        &&& b1.alive == b0.alive
        &&& b1.lifetime == b0.lifetime - dt
        &&& b1.pos.x == wrap1(b0.pos.x + mul_div_spec(b0.vel.x as int, dt, 1_000_000), w)
        &&& b1.pos.y == wrap1(b0.pos.y + mul_div_spec(b0.vel.y as int, dt, 1_000_000), h)
    })
}

impl Bullet {
    /// A fresh bullet at `pos`, flying along the unit direction
    /// `dir` (scaled by 1000) at the muzzle speed, with the full
    /// lifetime ahead of it.
    pub fn new(pos: Vec2i, dir: Vec2i) -> (b: Bullet)
        requires
            -32_000 <= pos.x <= 1_000_032_000,
            -32_000 <= pos.y <= 1_000_032_000,
            -1000 <= dir.x <= 1000,
            -1000 <= dir.y <= 1000,
        ensures
            b.pos == pos,
            b.vel.x == dir.x * 600,
            b.vel.y == dir.y * 600,
            b.lifetime == BULLET_LIFETIME,
            b.alive,
            bullet_ok(b),
    {
        Bullet {
            pos,
            vel: Vec2i { x: dir.x * 600, y: dir.y * 600 },
            lifetime: BULLET_LIFETIME,
            alive: true,
        }
    }

    /// One frame: the lifetime burns down by the frame delta; a
    /// bullet whose lifetime is spent dies on the spot and is not
    /// moved further; otherwise it integrates and wraps.
    pub fn update(&mut self, dt: i64, w: i64, h: i64)
        requires
            bullet_ok(*old(self)),
            0 <= dt <= 10_000_000,
            0 < w <= 1_000_000_000,
            0 < h <= 1_000_000_000,
        ensures
            bullet_stepped(*old(self), *final(self), dt as int, w as int, h as int),
            bullet_ok(*final(self)),
    {
        if dt >= self.lifetime {
            self.lifetime = 0;
            self.alive = false;
            return ;
        }
        self.lifetime = self.lifetime - dt;
        proof {
            crate::geom::lemma_mul_div_range(
                self.vel.x as int,
                600_000,
                dt as int,
                10_000_000,
                1_000_000,
                6_000_000,
            );
            crate::geom::lemma_mul_div_range(
                self.vel.y as int,
                600_000,
                dt as int,
                10_000_000,
                1_000_000,
                6_000_000,
            );
        }
        self.pos.x = wrap_coord(self.pos.x + mul_div(self.vel.x, dt, 1_000_000), w);
        self.pos.y = wrap_coord(self.pos.y + mul_div(self.vel.y, dt, 1_000_000), h);
    }

    /// Collision radius, fixed.
    pub fn radius(&self) -> (r: i64)
        ensures
            r == BULLET_RADIUS,
    {
        BULLET_RADIUS
    }
}

} // verus!
