//! Asteroids: three size tiers with fixed per-tier constants, random
//! drift at creation, toroidal motion, and split-in-two on death.

use vstd::prelude::*;
use crate::geom::{mul_div, mul_div_spec, rot_wrap, wrap_coord, wrap1, Vec2i, TAU_MRAD};
use crate::rng::{rand_in, rand_unit};

verus! {

/// The three asteroid classes. Every per-tier number (radius, speed,
/// draw scale, score, child tier) is a total function of this enum.
#[derive(Clone, Copy, PartialEq, Eq, Structural, Debug)]
pub enum AsteroidSize {
    Big,
    Medium,
    Small,
}

/// Collision radius of a tier, milli-pixels.
pub open spec fn radius_of(s: AsteroidSize) -> int {
    match s {
        AsteroidSize::Big => 56_000,
        AsteroidSize::Medium => 32_000,
        AsteroidSize::Small => 16_000,
    }
}

/// Drift speed of a tier, milli-pixels per second.
pub open spec fn speed_of(s: AsteroidSize) -> int {
    match s {
        AsteroidSize::Big => 60_000,
        AsteroidSize::Medium => 100_000,
        AsteroidSize::Small => 160_000,
    }
}

/// Score awarded for destroying an asteroid of a tier.
pub open spec fn score_of(s: AsteroidSize) -> int {
    match s {
        AsteroidSize::Big => 20,
        AsteroidSize::Medium => 50,
        AsteroidSize::Small => 100,
    }
}

/// Sprite edge length of a tier, milli-pixels. Configured separately
/// from the collision radius.
pub open spec fn draw_size_of(s: AsteroidSize) -> int {
    match s {
        AsteroidSize::Big => 128_000,
        AsteroidSize::Medium => 64_000,
        AsteroidSize::Small => 32_000,
    }
}

/// The tier the two children of a destroyed asteroid get; `None` for
/// the terminal tier.
pub open spec fn child_of(s: AsteroidSize) -> Option<AsteroidSize> {
    match s {
        AsteroidSize::Big => Some(AsteroidSize::Medium),
        AsteroidSize::Medium => Some(AsteroidSize::Small),
        AsteroidSize::Small => None,
    }
}

/// The total score an asteroid is worth once it and all its
/// descendants are destroyed.
pub open spec fn chain_score(s: AsteroidSize) -> int {
    match s {
        AsteroidSize::Big => 520,
        AsteroidSize::Medium => 250,
        AsteroidSize::Small => 100,
    }
}

/// The chain score satisfies its defining recurrence: an asteroid is
/// worth its own score plus the chain scores of its two children.
pub proof fn lemma_chain_score_recurrence(s: AsteroidSize)
    ensures
        chain_score(s) == score_of(s) + (match child_of(s) {
            Some(c) => 2 * chain_score(c),
            None => 0,
        }),
        chain_score(s) >= score_of(s) >= 0,
{
}

impl AsteroidSize {
    /// Collision radius, milli-pixels.
    pub fn radius(&self) -> (r: i64)
        ensures
            r == radius_of(*self),
    {
        match self {
            AsteroidSize::Big => 56_000,
            AsteroidSize::Medium => 32_000,
            AsteroidSize::Small => 16_000,
        }
    }

    /// Sprite edge length, milli-pixels.
    pub fn draw_size(&self) -> (r: i64)
        ensures
            r == draw_size_of(*self),
    {
        match self {
            AsteroidSize::Big => 128_000,
            AsteroidSize::Medium => 64_000,
            AsteroidSize::Small => 32_000,
        }
    }

    /// Drift speed, milli-pixels per second.
    pub fn speed(&self) -> (r: i64)
        ensures
            r == speed_of(*self),
    {
        match self {
            AsteroidSize::Big => 60_000,
            AsteroidSize::Medium => 100_000,
            AsteroidSize::Small => 160_000,
        }
    }

    /// Score awarded for destroying this tier.
    pub fn score(&self) -> (r: u32)
        ensures
            r == score_of(*self),
    {
        match self {
            AsteroidSize::Big => 20,
            AsteroidSize::Medium => 50,
            AsteroidSize::Small => 100,
        }
    }

    /// The children's tier when split, or `None` for the smallest.
    pub fn split(&self) -> (r: Option<AsteroidSize>)
        ensures
            r == child_of(*self),
    {
        match self {
            AsteroidSize::Big => Some(AsteroidSize::Medium),
            AsteroidSize::Medium => Some(AsteroidSize::Small),
            AsteroidSize::Small => None,
        }
    }
}

/// One drifting rock.
#[derive(Clone, Copy, PartialEq, Eq, Structural, Debug)]
pub struct Asteroid {
    pub pos: Vec2i,
    pub vel: Vec2i,
    /// Current sprite rotation, milli-radians in `[0, TAU_MRAD)`.
    pub rotation: i64,
    /// Rotational speed, milli-radians per second.
    pub rot_speed: i64,
    pub size: AsteroidSize,
    pub alive: bool,
}

/// Well-formedness of an asteroid: inside the largest accepted arena,
/// drifting no faster than its tier's speed, spinning within the
/// fixed symmetric range.
pub open spec fn ast_ok(a: Asteroid) -> bool {
    &&& 0 <= a.pos.x < 1_000_000_000
    &&& 0 <= a.pos.y < 1_000_000_000
    &&& -speed_of(a.size) <= a.vel.x <= speed_of(a.size)
    &&& -speed_of(a.size) <= a.vel.y <= speed_of(a.size)
    &&& 0 <= a.rotation < TAU_MRAD
    &&& -2000 <= a.rot_speed <= 2000
}

/// How one frame transforms an asteroid: the sprite turns by its
/// rotational speed, the position integrates the velocity and wraps
/// toroidally; everything else is untouched.
pub open spec fn ast_stepped(a0: Asteroid, a1: Asteroid, dt: int, w: int, h: int) -> bool {
    &&& a1.pos.x == wrap1(a0.pos.x + mul_div_spec(a0.vel.x as int, dt, 1_000_000), w)
    &&& a1.pos.y == wrap1(a0.pos.y + mul_div_spec(a0.vel.y as int, dt, 1_000_000), h)
    &&& a1.rotation == (a0.rotation + mul_div_spec(a0.rot_speed as int, dt, 1_000_000)) % (
    TAU_MRAD as int)
    &&& a1.vel == a0.vel
    &&& a1.rot_speed == a0.rot_speed
    &&& a1.size == a0.size
    &&& a1.alive == a0.alive
}

impl Asteroid {
    /// A fresh asteroid at `pos`: random heading at the tier's speed,
    /// random initial rotation, random rotational speed in the fixed
    /// symmetric range.
    pub fn new(pos: Vec2i, size: AsteroidSize) -> (a: Asteroid)
        requires
            0 <= pos.x < 1_000_000_000,
            0 <= pos.y < 1_000_000_000,
        ensures
            a.pos == pos,
            a.size == size,
            a.alive,
            ast_ok(a),
            990_000 * (speed_of(size) * speed_of(size)) <= 1_000_000 * (a.vel.x * a.vel.x
                + a.vel.y * a.vel.y),
            1_000_000 * (a.vel.x * a.vel.x + a.vel.y * a.vel.y) <= 1_004_004 * (speed_of(size)
                * speed_of(size)),
    {
        let u = rand_unit();
        let speed = size.speed();
        proof {
            crate::geom::lemma_mul_div_bound(u.x as int, speed as int, 1000);
            crate::geom::lemma_mul_div_bound(u.y as int, speed as int, 1000);
        }
        let vx = mul_div(u.x, speed, 1000);
        let vy = mul_div(u.y, speed, 1000);
        proof {
            crate::geom::lemma_speed_norm_bracket(
                u.x as int,
                u.y as int,
                speed as int,
                vx as int,
                vy as int,
            );
        }
        Asteroid {
            pos,
            vel: Vec2i { x: vx, y: vy },
            rotation: rand_in(0, TAU_MRAD - 1),
            rot_speed: rand_in(-2000, 2000),
            size,
            alive: true,
        }
    }

    /// The two children left behind when this asteroid is destroyed:
    /// both of the next-smaller tier, both created independently at
    /// the parent's position; the smallest tier leaves nothing.
    pub fn split(&self) -> (children: Vec<Asteroid>)
        requires
            ast_ok(*self),
        ensures
            match child_of(self.size) {
                None => children@.len() == 0,
                Some(c) => {
                    &&& children@.len() == 2
                    &&& forall|i: int|
                        0 <= i < 2 ==> {
                            &&& (#[trigger] children@[i]).pos == self.pos
                            &&& children@[i].size == c
                            &&& children@[i].alive
                            &&& ast_ok(children@[i])
                        }
                },
            },
    {
        let mut children: Vec<Asteroid> = Vec::new();
        match self.size.split() {
            None => {},
            Some(c) => {
                children.push(Asteroid::new(self.pos, c));
                children.push(Asteroid::new(self.pos, c));
            },
        }
        children
    }

    /// One frame of drift: the sprite turns by its rotational speed,
    /// the position integrates the velocity and wraps toroidally.
    pub fn update(&mut self, dt: i64, w: i64, h: i64)
        requires
            ast_ok(*old(self)),
            0 <= dt <= 10_000_000,
            0 < w <= 1_000_000_000,
            0 < h <= 1_000_000_000,
        ensures
            ast_stepped(*old(self), *final(self), dt as int, w as int, h as int),
            ast_ok(*final(self)),
    {
        proof {
            crate::geom::lemma_mul_div_range(
                self.rot_speed as int,
                2000,
                dt as int,
                10_000_000,
                1_000_000,
                20_000,
            );
            crate::geom::lemma_mul_div_range(
                self.vel.x as int,
                speed_of(self.size),
                dt as int,
                10_000_000,
                1_000_000,
                10 * speed_of(self.size),
            );
            crate::geom::lemma_mul_div_range(
                self.vel.y as int,
                speed_of(self.size),
                dt as int,
                10_000_000,
                1_000_000,
                10 * speed_of(self.size),
            );
        }
        self.rotation = rot_wrap(self.rotation + mul_div(self.rot_speed, dt, 1_000_000));
        self.pos.x = wrap_coord(self.pos.x + mul_div(self.vel.x, dt, 1_000_000), w);
        self.pos.y = wrap_coord(self.pos.y + mul_div(self.vel.y, dt, 1_000_000), h);
    }

    /// Collision radius, fixed per tier.
    pub fn radius(&self) -> (r: i64)
        ensures
            r == radius_of(self.size),
    {
        self.size.radius()
    }
}

} // verus!
