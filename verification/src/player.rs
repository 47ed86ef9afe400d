//! The player ship: input-driven rotation, thrust along the facing
//! direction, drag, a speed clamp, toroidal motion, and fire-rate
//! limited shooting. Every step of the frame update is pinned down
//! by a spec function, so the ship's motion is fully deterministic
//! given the input flags and the frame delta.

use vstd::prelude::*;
use crate::geom::{
    cos_mrad, facing, isqrt64, isqrt_spec, lemma_isqrt_bracket, lemma_mul_div_bound,
    lemma_mul_div_range, mul_div, mul_div_spec, rot_wrap, sin_mrad, wrap_coord, wrap1, Vec2i,
    TAU_MRAD,
};

verus! {

/// Collision radius of the ship, milli-pixels.
pub const PLAYER_RADIUS: i64 = 24_000;

/// Speed clamp, milli-pixels per second.
pub const PLAYER_MAX_SPEED: i64 = 400_000;

/// Turn rate, milli-radians per second.
pub const PLAYER_TURN_RATE: i64 = 3_000;

/// Time between shots, microseconds.
pub const PLAYER_RELOAD: i64 = 250_000;

/// How far ahead of the ship a bullet spawns, pixels.
pub const MUZZLE_OFFSET_PX: i64 = 32;

/// The discrete input signals one frame consumes. The held flags are
/// true for every frame the key is down; `fire` and `restart` are
/// press edges, true only on the frame the key goes down.
#[derive(Clone, Copy, PartialEq, Eq, Structural, Debug)]
pub struct InputFrame {
    pub turn_left: bool,
    pub turn_right: bool,
    pub thrust: bool,
    pub fire: bool,
    pub restart: bool,
}

impl InputFrame {
    /// A frame with no input active.
    pub fn idle() -> (i: InputFrame)
        ensures
            i == (InputFrame {
                turn_left: false,
                turn_right: false,
                thrust: false,
                fire: false,
                restart: false,
            }),
    {
        InputFrame { turn_left: false, turn_right: false, thrust: false, fire: false, restart: false }
    }
}

/// The ship.
#[derive(Clone, Copy, PartialEq, Eq, Structural, Debug)]
pub struct Player {
    pub pos: Vec2i,
    pub vel: Vec2i,
    /// Facing, milli-radians in `[0, TAU_MRAD)`; zero points up.
    pub rotation: i64,
    /// Time until the ship may fire again, microseconds.
    pub cooldown: i64,
    pub alive: bool,
}

/// Well-formedness of the ship.
pub open spec fn player_ok(p: Player) -> bool {
    &&& 0 <= p.pos.x < 1_000_000_000
    &&& 0 <= p.pos.y < 1_000_000_000
    &&& -PLAYER_MAX_SPEED <= p.vel.x <= PLAYER_MAX_SPEED
    &&& -PLAYER_MAX_SPEED <= p.vel.y <= PLAYER_MAX_SPEED
    &&& 0 <= p.rotation < TAU_MRAD
    &&& 0 <= p.cooldown <= PLAYER_RELOAD
}

/// How far the ship turns in one frame per held turn key.
pub open spec fn turn_step(dt: int) -> int {
    mul_div_spec(PLAYER_TURN_RATE as int, dt, 1_000_000)
}

/// Facing after this frame's turn input.
pub open spec fn rot_after(p: Player, input: InputFrame, dt: int) -> int {
    (p.rotation + (if input.turn_right {
        turn_step(dt)
    } else {
        0
    }) - (if input.turn_left {
        turn_step(dt)
    } else {
        0
    })) % (TAU_MRAD as int)
}

/// Velocity after thrust: held thrust accelerates along the facing
/// direction computed from this frame's rotation.
pub open spec fn vel_thrust_x(p: Player, input: InputFrame, dt: int) -> int {
    p.vel.x + if input.thrust {
        mul_div_spec(sin_mrad(rot_after(p, input, dt)) * 400, dt, 1_000_000)
    } else {
        0
    }
}

pub open spec fn vel_thrust_y(p: Player, input: InputFrame, dt: int) -> int {
    p.vel.y + if input.thrust {
        mul_div_spec(-cos_mrad(rot_after(p, input, dt)) * 400, dt, 1_000_000)
    } else {
        0
    }
}

/// The per-frame drag factor in millionths: unity minus 1.2 times
/// the frame delta in seconds, floored at zero so drag never
/// reverses a velocity.
pub open spec fn drag_scale(dt: int) -> int {
    if 1_000_000 - mul_div_spec(6, dt, 5) < 0 {
        0
    } else {
        1_000_000 - mul_div_spec(6, dt, 5)
    }
}

pub open spec fn vel_drag_x(p: Player, input: InputFrame, dt: int) -> int {
    mul_div_spec(vel_thrust_x(p, input, dt), drag_scale(dt), 1_000_000)
}

pub open spec fn vel_drag_y(p: Player, input: InputFrame, dt: int) -> int {
    mul_div_spec(vel_thrust_y(p, input, dt), drag_scale(dt), 1_000_000)
}

/// Squared speed after thrust and drag.
pub open spec fn speed_sq(p: Player, input: InputFrame, dt: int) -> int {
    vel_drag_x(p, input, dt) * vel_drag_x(p, input, dt) + vel_drag_y(p, input, dt) * vel_drag_y(
        p,
        input,
        dt,
    )
}

/// Whether the speed clamp engages this frame.
pub open spec fn clamped(p: Player, input: InputFrame, dt: int) -> bool {
    speed_sq(p, input, dt) > (PLAYER_MAX_SPEED as int) * (PLAYER_MAX_SPEED as int)
}

/// Velocity at the end of the frame: clamped back to the maximum
/// speed, direction preserved up to rounding.
pub open spec fn vel_after_x(p: Player, input: InputFrame, dt: int) -> int {
    if clamped(p, input, dt) {
        mul_div_spec(
            vel_drag_x(p, input, dt),
            PLAYER_MAX_SPEED as int,
            isqrt_spec(speed_sq(p, input, dt)),
        )
    } else {
        vel_drag_x(p, input, dt)
    }
}

pub open spec fn vel_after_y(p: Player, input: InputFrame, dt: int) -> int {
    if clamped(p, input, dt) {
        mul_div_spec(
            vel_drag_y(p, input, dt),
            PLAYER_MAX_SPEED as int,
            isqrt_spec(speed_sq(p, input, dt)),
        )
    } else {
        vel_drag_y(p, input, dt)
    }
}

/// Position at the end of the frame: the final velocity integrated
/// over the frame delta, wrapped toroidally.
pub open spec fn pos_after_x(p: Player, input: InputFrame, dt: int, w: int) -> int {
    wrap1(p.pos.x + mul_div_spec(vel_after_x(p, input, dt), dt, 1_000_000), w)
}

pub open spec fn pos_after_y(p: Player, input: InputFrame, dt: int, h: int) -> int {
    wrap1(p.pos.y + mul_div_spec(vel_after_y(p, input, dt), dt, 1_000_000), h)
}

/// The cooldown after burning this frame's delta, before any shot.
pub open spec fn cooldown_run(cd: int, dt: int) -> int {
    if dt >= cd {
        0
    } else {
        cd - dt
    }
}

/// The ship fires exactly when the fire edge arrives with the
/// cooldown fully burnt down.
pub open spec fn fires(p: Player, input: InputFrame, dt: int) -> bool {
    input.fire && cooldown_run(p.cooldown as int, dt) == 0
}

pub open spec fn cooldown_after(p: Player, input: InputFrame, dt: int) -> int {
    if fires(p, input, dt) {
        PLAYER_RELOAD as int
    } else {
        cooldown_run(p.cooldown as int, dt)
    }
}

/// Where a bullet fired this frame appears: the ship's new position
/// offset forward along the facing direction.
pub open spec fn spawn_x(p: Player, input: InputFrame, dt: int, w: int) -> int {
    pos_after_x(p, input, dt, w) + sin_mrad(rot_after(p, input, dt)) * 32
}

pub open spec fn spawn_y(p: Player, input: InputFrame, dt: int, h: int) -> int {
    pos_after_y(p, input, dt, h) + -cos_mrad(rot_after(p, input, dt)) * 32
}

impl Player {
    /// A fresh ship at the default start position, at rest, facing
    /// up, ready to fire.
    pub fn new() -> (p: Player)
        ensures
            p == (Player {
                pos: Vec2i { x: 640_000, y: 360_000 },
                vel: Vec2i { x: 0, y: 0 },
                rotation: 0,
                cooldown: 0,
                alive: true,
            }),
            player_ok(p),
    {
        Player {
            pos: Vec2i { x: 640_000, y: 360_000 },
            vel: Vec2i { x: 0, y: 0 },
            rotation: 0,
            cooldown: 0,
            alive: true,
        }
    }

    /// One frame of ship physics: turn, thrust, drag, speed clamp,
    /// integrate, wrap, burn cooldown, and possibly fire. Returns
    /// the spawn position of the one bullet requested this frame,
    /// if any.
    pub fn update(&mut self, input: InputFrame, dt: i64, w: i64, h: i64) -> (shot: Option<Vec2i>)
        requires
            player_ok(*old(self)),
            0 <= dt <= 10_000_000,
            0 < w <= 1_000_000_000,
            0 < h <= 1_000_000_000,
        ensures
            final(self).rotation == rot_after(*old(self), input, dt as int),
            final(self).vel.x == vel_after_x(*old(self), input, dt as int),
            final(self).vel.y == vel_after_y(*old(self), input, dt as int),
            final(self).pos.x == pos_after_x(*old(self), input, dt as int, w as int),
            final(self).pos.y == pos_after_y(*old(self), input, dt as int, h as int),
            final(self).cooldown == cooldown_after(*old(self), input, dt as int),
            final(self).alive == old(self).alive,
            match shot {
                Some(s) => fires(*old(self), input, dt as int) && s.x == spawn_x(
                    *old(self),
                    input,
                    dt as int,
                    w as int,
                ) && s.y == spawn_y(*old(self), input, dt as int, h as int),
                None => !fires(*old(self), input, dt as int),
            },
            player_ok(*final(self)),
    {
        let ghost p0 = *self;
        // Turn
        let t = mul_div(PLAYER_TURN_RATE, dt, 1_000_000);
        proof {
            lemma_mul_div_range(PLAYER_TURN_RATE as int, 3_000, dt as int, 10_000_000, 1_000_000, 30_000);
        }
        let mut rot = self.rotation;
        if input.turn_left {
            rot = rot - t;
        }
        if input.turn_right {
            rot = rot + t;
        }
        self.rotation = rot_wrap(rot);

        // Thrust along the new facing
        let dir = facing(self.rotation);
        if input.thrust {
            proof {
                lemma_mul_div_range(
                    (dir.x * 400) as int,
                    400_000,
                    dt as int,
                    10_000_000,
                    1_000_000,
                    4_000_000,
                );
                lemma_mul_div_range(
                    (dir.y * 400) as int,
                    400_000,
                    dt as int,
                    10_000_000,
                    1_000_000,
                    4_000_000,
                );
            }
            self.vel.x = self.vel.x + mul_div(dir.x * 400, dt, 1_000_000);
            self.vel.y = self.vel.y + mul_div(dir.y * 400, dt, 1_000_000);
        }
        proof {
            assert(self.vel.x == vel_thrust_x(p0, input, dt as int));
            assert(self.vel.y == vel_thrust_y(p0, input, dt as int));
        }

        // Drag
        let mut f = 1_000_000 - mul_div(6, dt, 5);
        if f < 0 {
            f = 0;
        }
        proof {
            lemma_mul_div_range(self.vel.x as int, 4_400_000, f as int, 1_000_000, 1_000_000, 4_400_000);
            lemma_mul_div_range(self.vel.y as int, 4_400_000, f as int, 1_000_000, 1_000_000, 4_400_000);
        }
        self.vel.x = mul_div(self.vel.x, f, 1_000_000);
        self.vel.y = mul_div(self.vel.y, f, 1_000_000);
        proof {
            assert(self.vel.x == vel_drag_x(p0, input, dt as int));
            assert(self.vel.y == vel_drag_y(p0, input, dt as int));
        }

        // Speed clamp
        let vx = self.vel.x;
        let vy = self.vel.y;
        proof {
            assert(0 <= (vx as int) * (vx as int) <= 19_360_000_000_000) by (nonlinear_arith)
                requires
                    -4_400_000 <= vx <= 4_400_000,
            ;
            assert(0 <= (vy as int) * (vy as int) <= 19_360_000_000_000) by (nonlinear_arith)
                requires
                    -4_400_000 <= vy <= 4_400_000,
            ;
        }
        let ls: i64 = vx * vx + vy * vy;
        if ls > 160_000_000_000 {
            let len64 = isqrt64(ls as u64);
            proof {
                lemma_isqrt_bracket(ls as int);
                assert(len64 as int == isqrt_spec(ls as int));
                assert(len64 >= 400_000) by (nonlinear_arith)
                    requires
                        (ls as int) < (len64 as int + 1) * (len64 as int + 1),
                        ls > 160_000_000_000,
                        len64 >= 0,
                ;
                assert(len64 <= 6_300_000) by (nonlinear_arith)
                    requires
                        (len64 as int) * (len64 as int) <= ls as int,
                        ls <= 38_720_000_000_000,
                        len64 >= 0,
                ;
            }
            let len = len64 as i64;
            proof {
                assert(-(len as int) <= vx as int <= len as int) by (nonlinear_arith)
                    requires
                        (vx as int) * (vx as int) <= ls as int,
                        (ls as int) < (len as int + 1) * (len as int + 1),
                        0 <= len as int,
                ;
                assert(-(len as int) <= vy as int <= len as int) by (nonlinear_arith)
                    requires
                        (vy as int) * (vy as int) <= ls as int,
                        (ls as int) < (len as int + 1) * (len as int + 1),
                        0 <= len as int,
                ;
                lemma_mul_div_bound(vx as int, PLAYER_MAX_SPEED as int, len as int);
                lemma_mul_div_bound(vy as int, PLAYER_MAX_SPEED as int, len as int);
            }
            self.vel.x = mul_div(vx, PLAYER_MAX_SPEED, len);
            self.vel.y = mul_div(vy, PLAYER_MAX_SPEED, len);
        } else {
            proof {
                assert(-400_000 <= vx as int <= 400_000) by (nonlinear_arith)
                    requires
                        (vx as int) * (vx as int) <= 160_000_000_000,
                ;
                assert(-400_000 <= vy as int <= 400_000) by (nonlinear_arith)
                    requires
                        (vy as int) * (vy as int) <= 160_000_000_000,
                ;
            }
        }
        proof {
            assert(self.vel.x == vel_after_x(p0, input, dt as int));
            assert(self.vel.y == vel_after_y(p0, input, dt as int));
        }

        // Integrate and wrap
        proof {
            lemma_mul_div_range(self.vel.x as int, 400_000, dt as int, 10_000_000, 1_000_000, 4_000_000);
            lemma_mul_div_range(self.vel.y as int, 400_000, dt as int, 10_000_000, 1_000_000, 4_000_000);
        }
        self.pos.x = wrap_coord(self.pos.x + mul_div(self.vel.x, dt, 1_000_000), w);
        self.pos.y = wrap_coord(self.pos.y + mul_div(self.vel.y, dt, 1_000_000), h);

        // Cooldown and fire
        if dt >= self.cooldown {
            self.cooldown = 0;
        } else {
            self.cooldown = self.cooldown - dt;
        }
        if input.fire && self.cooldown == 0 {
            self.cooldown = PLAYER_RELOAD;
            return Some(
                Vec2i { x: self.pos.x + dir.x * MUZZLE_OFFSET_PX, y: self.pos.y + dir.y * MUZZLE_OFFSET_PX },
            );
        }
        None
    }

    /// Collision radius, fixed regardless of facing.
    pub fn radius(&self) -> (r: i64)
        ensures
            r == PLAYER_RADIUS,
    {
        PLAYER_RADIUS
    }
}

} // verus!
