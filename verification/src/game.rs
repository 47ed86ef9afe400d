//! The collision and simulation orchestrator: owns the player, the
//! bullet and asteroid collections, the score and the game-state
//! machine, and drives the per-frame update order.

use vstd::prelude::*;
use crate::asteroid::{ast_ok, ast_stepped, chain_score, child_of, radius_of, score_of, Asteroid, AsteroidSize};
use crate::bullet::{bullet_ok, bullet_stepped, Bullet, BULLET_LIFETIME, BULLET_RADIUS};
use crate::geom::{circles_overlap, cos_mrad, dist_sq, dist_sq_ex, facing, hits, sin_mrad, Vec2i};
use crate::player::{cooldown_after, fires, player_ok, pos_after_x, pos_after_y, rot_after, spawn_x, spawn_y, vel_after_x, vel_after_y, InputFrame, Player, PLAYER_RADIUS};
use crate::rng::rand_in;

verus! {

/// How many big asteroids a fresh wave holds.
pub const INITIAL_ASTEROIDS: usize = 5;

/// Minimum distance between a spawned asteroid and the avoid point,
/// milli-pixels.
pub const SAFE_RADIUS: i64 = 150_000;

/// `SAFE_RADIUS` squared.
pub const SAFE_RADIUS_SQ: i64 = SAFE_RADIUS * SAFE_RADIUS;

/// The total score a fresh wave is worth once fully cleared.
pub const WAVE_WORTH: i64 = 2_600;

/// The three phases of a game. Terminal phases freeze the simulation
/// and wait for the restart edge.
#[derive(Clone, Copy, PartialEq, Eq, Structural, Debug)]
pub enum GameState {
    Playing,
    GameOver,
    Victory,
}

/// What a live asteroid still contributes to the total clearable
/// score; a dead one contributes nothing.
pub open spec fn ast_contrib(a: Asteroid) -> int {
    if a.alive {
        chain_score(a.size)
    } else {
        0
    }
}

/// The score still locked up in a collection of asteroids.
pub open spec fn worth_sum(s: Seq<Asteroid>) -> int
    decreases s.len(),
{
    if s.len() == 0 {
        0
    } else {
        worth_sum(s.drop_last()) + ast_contrib(s.last())
    }
}

pub proof fn lemma_worth_sum_nonneg(s: Seq<Asteroid>)
    ensures
        worth_sum(s) >= 0,
    decreases s.len(),
{
    if s.len() > 0 {
        lemma_worth_sum_nonneg(s.drop_last());
    }
}

pub proof fn lemma_worth_sum_push(s: Seq<Asteroid>, a: Asteroid)
    ensures
        worth_sum(s.push(a)) == worth_sum(s) + ast_contrib(a),
{
    assert(s.push(a).drop_last() =~= s);
    assert(s.push(a).last() == a);
}

pub proof fn lemma_worth_sum_update(s: Seq<Asteroid>, j: int, a: Asteroid)
    requires
        0 <= j < s.len(),
    ensures
        worth_sum(s.update(j, a)) == worth_sum(s) - ast_contrib(s[j]) + ast_contrib(a),
    decreases s.len(),
{
    let t = s.update(j, a);
    if j == s.len() - 1 {
        assert(t.drop_last() =~= s.drop_last());
        assert(t.last() == a);
    } else {
        assert(t.drop_last() =~= s.drop_last().update(j, a));
        assert(t.last() == s.last());
        lemma_worth_sum_update(s.drop_last(), j, a);
    }
}

pub proof fn lemma_worth_sum_concat(s: Seq<Asteroid>, t: Seq<Asteroid>)
    ensures
        worth_sum(s + t) == worth_sum(s) + worth_sum(t),
    decreases t.len(),
{
    if t.len() == 0 {
        assert(s + t =~= s);
    } else {
        assert((s + t).drop_last() =~= s + t.drop_last());
        assert((s + t).last() == t.last());
        lemma_worth_sum_concat(s, t.drop_last());
    }
}

/// How many bullets were alive in `s0` and are dead in `s1`, over
/// the first `n` slots.
pub open spec fn killed_bullets(s0: Seq<Bullet>, s1: Seq<Bullet>, n: int) -> int
    decreases n,
{
    if n <= 0 {
        0
    } else {
        killed_bullets(s0, s1, n - 1) + if s0[n - 1].alive && !s1[n - 1].alive {
            1int
        } else {
            0int
        }
    }
}

/// How many asteroids were alive in `s0` and are dead in `s1`, over
/// the first `n` slots.
pub open spec fn killed_asts(s0: Seq<Asteroid>, s1: Seq<Asteroid>, n: int) -> int
    decreases n,
{
    if n <= 0 {
        0
    } else {
        killed_asts(s0, s1, n - 1) + if s0[n - 1].alive && !s1[n - 1].alive {
            1int
        } else {
            0int
        }
    }
}

pub proof fn lemma_killed_bullets_refl(s: Seq<Bullet>, n: int)
    ensures
        killed_bullets(s, s, n) == 0,
    decreases n,
{
    if n > 0 {
        lemma_killed_bullets_refl(s, n - 1);
    }
}

pub proof fn lemma_killed_asts_refl(s: Seq<Asteroid>, n: int)
    ensures
        killed_asts(s, s, n) == 0,
    decreases n,
{
    if n > 0 {
        lemma_killed_asts_refl(s, n - 1);
    }
}

/// The counts only read the alive flags of the first `n` slots.
pub proof fn lemma_killed_bullets_frame(s0: Seq<Bullet>, s1: Seq<Bullet>, s2: Seq<Bullet>, n: int)
    requires
        forall|k: int| 0 <= k < n ==> (#[trigger] s1[k]).alive == s2[k].alive,
    ensures
        killed_bullets(s0, s1, n) == killed_bullets(s0, s2, n),
    decreases n,
{
    if n > 0 {
        lemma_killed_bullets_frame(s0, s1, s2, n - 1);
    }
}

pub proof fn lemma_killed_asts_frame(s0: Seq<Asteroid>, s1: Seq<Asteroid>, s2: Seq<Asteroid>, n: int)
    requires
        forall|k: int| 0 <= k < n ==> (#[trigger] s1[k]).alive == s2[k].alive,
    ensures
        killed_asts(s0, s1, n) == killed_asts(s0, s2, n),
    decreases n,
{
    if n > 0 {
        lemma_killed_asts_frame(s0, s1, s2, n - 1);
    }
}

pub proof fn lemma_killed_bullets_update(s0: Seq<Bullet>, s1: Seq<Bullet>, j: int, x: Bullet, n: int)
    requires
        0 <= j < n <= s1.len(),
    ensures
        killed_bullets(s0, s1.update(j, x), n) == killed_bullets(s0, s1, n) - (
        if s0[j].alive && !s1[j].alive {
            1int
        } else {
            0int
        }) + (if s0[j].alive && !x.alive {
            1int
        } else {
            0int
        }),
    decreases n,
{
    if j == n - 1 {
        lemma_killed_bullets_frame(s0, s1, s1.update(j, x), n - 1);
    } else {
        lemma_killed_bullets_update(s0, s1, j, x, n - 1);
    }
}

pub proof fn lemma_killed_asts_update(s0: Seq<Asteroid>, s1: Seq<Asteroid>, j: int, x: Asteroid, n: int)
    requires
        0 <= j < n <= s1.len(),
    ensures
        killed_asts(s0, s1.update(j, x), n) == killed_asts(s0, s1, n) - (
        if s0[j].alive && !s1[j].alive {
            1int
        } else {
            0int
        }) + (if s0[j].alive && !x.alive {
            1int
        } else {
            0int
        }),
    decreases n,
{
    if j == n - 1 {
        lemma_killed_asts_frame(s0, s1, s1.update(j, x), n - 1);
    } else {
        lemma_killed_asts_update(s0, s1, j, x, n - 1);
    }
}

/// How many bullets in a collection are alive.
pub open spec fn live_bullet_count(s: Seq<Bullet>) -> int
    decreases s.len(),
{
    if s.len() == 0 {
        0
    } else {
        live_bullet_count(s.drop_last()) + if s.last().alive {
            1int
        } else {
            0int
        }
    }
}

/// How many asteroids in a collection are alive.
pub open spec fn live_ast_count(s: Seq<Asteroid>) -> int
    decreases s.len(),
{
    if s.len() == 0 {
        0
    } else {
        live_ast_count(s.drop_last()) + if s.last().alive {
            1int
        } else {
            0int
        }
    }
}

/// A witness that `s1` is `s0` with its dead members removed: a
/// strictly increasing map sends each kept slot to its old slot, and
/// every kept member is alive.
pub open spec fn prune_map_ok_bullets(s0: Seq<Bullet>, s1: Seq<Bullet>, m: Seq<int>) -> bool {
    &&& m.len() == s1.len()
    &&& forall|k: int|
        0 <= k < m.len() ==> {
            &&& 0 <= #[trigger] m[k] < s0.len()
            &&& s1[k] == s0[m[k]]
            &&& s1[k].alive
            &&& (k > 0 ==> m[k - 1] < m[k])
        }
}

/// See `prune_map_ok_bullets`.
pub open spec fn prune_map_ok_asts(s0: Seq<Asteroid>, s1: Seq<Asteroid>, m: Seq<int>) -> bool {
    &&& m.len() == s1.len()
    &&& forall|k: int|
        0 <= k < m.len() ==> {
            &&& 0 <= #[trigger] m[k] < s0.len()
            &&& s1[k] == s0[m[k]]
            &&& s1[k].alive
            &&& (k > 0 ==> m[k - 1] < m[k])
        }
}

/// Stable in-place pruning: the survivors are exactly the live
/// members of the old collection, in their old order.
#[verifier::opaque]
pub open spec fn pruned_bullets(s0: Seq<Bullet>, s1: Seq<Bullet>) -> bool {
    &&& s1.len() == live_bullet_count(s0)
    &&& exists|m: Seq<int>| prune_map_ok_bullets(s0, s1, m)
}

/// See `pruned_bullets`.
#[verifier::opaque]
pub open spec fn pruned_asts(s0: Seq<Asteroid>, s1: Seq<Asteroid>) -> bool {
    &&& s1.len() == live_ast_count(s0)
    &&& exists|m: Seq<int>| prune_map_ok_asts(s0, s1, m)
}

/// The bullet a fire request this frame creates, before it is moved:
/// spawned ahead of the ship along the new facing, flying along that
/// facing at the muzzle speed, with the full lifetime.
pub open spec fn fired_bullet_spec(
    p: Player,
    input: InputFrame,
    dt: int,
    w: int,
    h: int,
    b: Bullet,
) -> bool {
    &&& b.pos.x == spawn_x(p, input, dt, w)
    &&& b.pos.y == spawn_y(p, input, dt, h)
    &&& b.vel.x == sin_mrad(rot_after(p, input, dt)) * 600
    &&& b.vel.y == -cos_mrad(rot_after(p, input, dt)) * 600
    &&& b.lifetime == BULLET_LIFETIME
    &&& b.alive
}

/// The movement phase of a playing frame: the player steps through
/// its physics chain and may append exactly one bullet (which is then
/// moved like the rest), every bullet and asteroid steps through its
/// own kinematics, and nothing else changes.
#[verifier::opaque]
pub open spec fn moved_rel(g0: Game, g1: Game, input: InputFrame, dt: int, w: int, h: int) -> bool {
    &&& g1.state == g0.state
    &&& g1.score == g0.score
    &&& g1.player.rotation == rot_after(g0.player, input, dt)
    &&& g1.player.vel.x == vel_after_x(g0.player, input, dt)
    &&& g1.player.vel.y == vel_after_y(g0.player, input, dt)
    &&& g1.player.pos.x == pos_after_x(g0.player, input, dt, w)
    &&& g1.player.pos.y == pos_after_y(g0.player, input, dt, h)
    &&& g1.player.cooldown == cooldown_after(g0.player, input, dt)
    &&& g1.player.alive == g0.player.alive
    &&& g1.bullets@.len() == g0.bullets@.len() + (if fires(g0.player, input, dt) {
        1int
    } else {
        0int
    })
    &&& forall|i: int|
        0 <= i < g0.bullets@.len() ==> bullet_stepped(
            g0.bullets@[i],
            #[trigger] g1.bullets@[i],
            dt,
            w,
            h,
        )
    &&& (fires(g0.player, input, dt) ==> exists|f: Bullet|
        fired_bullet_spec(g0.player, input, dt, w, h, f) && bullet_stepped(
            f,
            g1.bullets@[g1.bullets@.len() - 1],
            dt,
            w,
            h,
        ))
    &&& g1.asteroids@.len() == g0.asteroids@.len()
    &&& forall|j: int|
        0 <= j < g0.asteroids@.len() ==> ast_stepped(
            g0.asteroids@[j],
            #[trigger] g1.asteroids@[j],
            dt,
            w,
            h,
        )
}

/// The bullet-asteroid pass, as a relation between the state it reads
/// and the state it leaves. See `Game::resolve_hits` for the story.
#[verifier::opaque]
pub open spec fn pass_rel(g0: Game, g1: Game) -> bool {
    &&& g1.player == g0.player
    &&& g1.state == g0.state
    &&& g1.bullets@.len() == g0.bullets@.len()
    &&& forall|i: int|
        0 <= i < g0.bullets@.len() ==> {
            &&& (#[trigger] g1.bullets@[i]).pos == g0.bullets@[i].pos
            &&& g1.bullets@[i].vel == g0.bullets@[i].vel
            &&& g1.bullets@[i].lifetime == g0.bullets@[i].lifetime
            &&& (g1.bullets@[i].alive ==> g0.bullets@[i].alive)
        }
    &&& g0.asteroids@.len() <= g1.asteroids@.len()
    &&& forall|j: int|
        0 <= j < g0.asteroids@.len() ==> {
            &&& (#[trigger] g1.asteroids@[j]).pos == g0.asteroids@[j].pos
            &&& g1.asteroids@[j].vel == g0.asteroids@[j].vel
            &&& g1.asteroids@[j].rotation == g0.asteroids@[j].rotation
            &&& g1.asteroids@[j].rot_speed == g0.asteroids@[j].rot_speed
            &&& g1.asteroids@[j].size == g0.asteroids@[j].size
            &&& (g1.asteroids@[j].alive ==> g0.asteroids@[j].alive)
        }
    &&& forall|k: int|
        g0.asteroids@.len() <= k < g1.asteroids@.len() ==> {
            &&& (#[trigger] g1.asteroids@[k]).alive
            &&& exists|j: int|
                0 <= j < g0.asteroids@.len() && (#[trigger] g0.asteroids@[j]).alive
                    && !g1.asteroids@[j].alive && g1.asteroids@[k].pos == g0.asteroids@[j].pos
                    && child_of(g0.asteroids@[j].size) == Some(g1.asteroids@[k].size)
        }
    &&& g1.score + worth_sum(g1.asteroids@) == g0.score + worth_sum(g0.asteroids@)
    &&& g1.score >= g0.score
    &&& forall|i: int, j: int|
        0 <= i < g0.bullets@.len() && 0 <= j < g0.asteroids@.len() && (
        #[trigger] g1.bullets@[i]).alive && (#[trigger] g1.asteroids@[j]).alive
            ==> !circles_overlap(
            g0.bullets@[i].pos,
            BULLET_RADIUS as int,
            g0.asteroids@[j].pos,
            radius_of(g0.asteroids@[j].size),
        )
    &&& forall|j: int|
        0 <= j < g0.asteroids@.len() && (#[trigger] g0.asteroids@[j]).alive
            && !g1.asteroids@[j].alive ==> exists|i: int|
            0 <= i < g0.bullets@.len() && (#[trigger] g0.bullets@[i]).alive
                && !g1.bullets@[i].alive && circles_overlap(
                g0.bullets@[i].pos,
                BULLET_RADIUS as int,
                g0.asteroids@[j].pos,
                radius_of(g0.asteroids@[j].size),
            )
    &&& forall|i: int|
        0 <= i < g0.bullets@.len() && (#[trigger] g0.bullets@[i]).alive
            && !g1.bullets@[i].alive ==> exists|j: int|
            0 <= j < g0.asteroids@.len() && (#[trigger] g0.asteroids@[j]).alive
                && !g1.asteroids@[j].alive && circles_overlap(
                g0.bullets@[i].pos,
                BULLET_RADIUS as int,
                g0.asteroids@[j].pos,
                radius_of(g0.asteroids@[j].size),
            )
    &&& forall|i: int, j: int|
        0 <= i < g0.bullets@.len() && 0 <= j < g0.asteroids@.len() && (
        #[trigger] g1.bullets@[i]).alive && (#[trigger] g0.asteroids@[j]).alive
            && circles_overlap(
            g0.bullets@[i].pos,
            BULLET_RADIUS as int,
            g0.asteroids@[j].pos,
            radius_of(g0.asteroids@[j].size),
        ) ==> !g1.asteroids@[j].alive && exists|i2: int|
            0 <= i2 < i && (#[trigger] g0.bullets@[i2]).alive && !g1.bullets@[i2].alive
                && circles_overlap(
                g0.bullets@[i2].pos,
                BULLET_RADIUS as int,
                g0.asteroids@[j].pos,
                radius_of(g0.asteroids@[j].size),
            )
    &&& killed_bullets(g0.bullets@, g1.bullets@, g0.bullets@.len() as int) == killed_asts(
        g0.asteroids@,
        g1.asteroids@,
        g0.asteroids@.len() as int,
    )
}

/// The frame's settlement, after the bullet-asteroid pass: a player
/// overlap freezes the frame right there in `GameOver` — nothing is
/// pruned, dead entities stay in their collections; otherwise the
/// dead are pruned stably and an empty arena means `Victory`.
#[verifier::opaque]
pub open spec fn settled_rel(g0: Game, g1: Game) -> bool {
    &&& g1.player.pos == g0.player.pos
    &&& g1.player.vel == g0.player.vel
    &&& g1.player.rotation == g0.player.rotation
    &&& g1.player.cooldown == g0.player.cooldown
    &&& g1.score == g0.score
    &&& worth_sum(g1.asteroids@) == worth_sum(g0.asteroids@)
    &&& g1.bullets@.len() <= g0.bullets@.len()
    &&& (g1.state == GameState::GameOver <==> g0.player.alive && exists|j: int|
        0 <= j < g1.asteroids@.len() && (#[trigger] g1.asteroids@[j]).alive && circles_overlap(
            g1.player.pos,
            PLAYER_RADIUS as int,
            g1.asteroids@[j].pos,
            radius_of(g1.asteroids@[j].size),
        ))
    &&& (g1.state == GameState::GameOver ==> !g1.player.alive && g1.bullets@ == g0.bullets@
        && g1.asteroids@ == g0.asteroids@)
    &&& (g1.state != GameState::GameOver ==> g1.player.alive == g0.player.alive)
    &&& (g1.state != GameState::GameOver ==> pruned_bullets(g0.bullets@, g1.bullets@)
        && pruned_asts(g0.asteroids@, g1.asteroids@))
    &&& (g1.state != GameState::GameOver ==> g1.state == (if g1.asteroids@.len() == 0 {
        GameState::Victory
    } else {
        GameState::Playing
    }))
}

/// Removes the dead bullets, keeping the live ones in order. The
/// returned ghost sequence maps each kept slot to its old slot, and
/// the new length equals the number of live bullets, so exactly the
/// live ones are kept.
fn prune_bullets(v: &mut Vec<Bullet>) -> (m: Ghost<Seq<int>>)
    ensures
        prune_map_ok_bullets(old(v)@, final(v)@, m@),
        m@.len() == final(v)@.len(),
        forall|k: int|
            0 <= k < m@.len() ==> {
                &&& 0 <= #[trigger] m@[k] < old(v)@.len()
                &&& final(v)@[k] == old(v)@[m@[k]]
                &&& final(v)@[k].alive
            },
        final(v)@.len() == live_bullet_count(old(v)@),
        final(v)@.len() <= old(v)@.len(),
{
    let mut out: Vec<Bullet> = Vec::new();
    let ghost mut m: Seq<int> = Seq::empty();
    let mut i: usize = 0;
    proof {
        assert(old(v)@.take(0) =~= Seq::<Bullet>::empty());
    }
    while i < v.len()
        invariant
            i <= v@.len(),
            *v == *old(v),
            out@.len() <= i,
            m.len() == out@.len(),
            forall|k: int|
                0 <= k < m.len() ==> {
                    &&& 0 <= #[trigger] m[k] < v@.len()
                    &&& out@[k] == v@[m[k]]
                    &&& out@[k].alive
                },
            forall|k: int| 0 <= k < m.len() ==> #[trigger] m[k] < i,
            forall|k: int| 1 <= k < m.len() ==> m[k - 1] < #[trigger] m[k],
            out@.len() == live_bullet_count(v@.take(i as int)),
        decreases v@.len() - i,
    {
        let b = v[i];
        proof {
            assert(v@.take(i + 1).drop_last() =~= v@.take(i as int));
            assert(v@.take(i + 1).last() == b);
        }
        if b.alive {
            let ghost prev = out@;
            let ghost mprev = m;
            out.push(b);
            proof {
                m = m.push(i as int);
                assert forall|k: int| 0 <= k < m.len() implies {
                    &&& 0 <= #[trigger] m[k] < v@.len()
                    &&& out@[k] == v@[m[k]]
                    &&& out@[k].alive
                } by {
                    if k < mprev.len() {
                        assert(out@[k] == prev[k]);
                        assert(m[k] == mprev[k]);
                    } else {
                        assert(out@[k] == b);
                        assert(m[k] == i as int);
                    }
                }
                assert forall|k: int| 0 <= k < m.len() implies #[trigger] m[k] < i + 1 by {
                    if k < mprev.len() {
                        assert(m[k] == mprev[k]);
                    } else {
                        assert(m[k] == i as int);
                    }
                }
                assert forall|k: int| 1 <= k < m.len() implies m[k - 1] < #[trigger] m[k] by {
                    if k < mprev.len() {
                        assert(m[k] == mprev[k] && m[k - 1] == mprev[k - 1]);
                    } else {
                        assert(m[k] == i as int && m[k - 1] == mprev[k - 1]);
                    }
                }
            }
        }
        i = i + 1;
    }
    proof {
        assert(old(v)@.take(v@.len() as int) =~= old(v)@);
    }
    *v = out;
    Ghost(m)
}

/// Removes the dead asteroids, keeping the live ones in order, with
/// the same guarantees as for bullets; since a dead asteroid is
/// worth nothing, the locked-up worth is preserved.
#[verifier::rlimit(100)]
#[verifier::spinoff_prover]
fn prune_asteroids(v: &mut Vec<Asteroid>) -> (m: Ghost<Seq<int>>)
    ensures
        prune_map_ok_asts(old(v)@, final(v)@, m@),
        m@.len() == final(v)@.len(),
        forall|k: int|
            0 <= k < m@.len() ==> {
                &&& 0 <= #[trigger] m@[k] < old(v)@.len()
                &&& final(v)@[k] == old(v)@[m@[k]]
                &&& final(v)@[k].alive
            },
        final(v)@.len() == live_ast_count(old(v)@),
        final(v)@.len() <= old(v)@.len(),
        worth_sum(final(v)@) == worth_sum(old(v)@),
{
    let mut out: Vec<Asteroid> = Vec::new();
    let ghost mut m: Seq<int> = Seq::empty();
    let mut i: usize = 0;
    proof {
        assert(old(v)@.take(0) =~= Seq::<Asteroid>::empty());
    }
    while i < v.len()
        invariant
            i <= v@.len(),
            *v == *old(v),
            out@.len() <= i,
            m.len() == out@.len(),
            forall|k: int|
                0 <= k < m.len() ==> {
                    &&& 0 <= #[trigger] m[k] < v@.len()
                    &&& out@[k] == v@[m[k]]
                    &&& out@[k].alive
                },
            forall|k: int| 0 <= k < m.len() ==> #[trigger] m[k] < i,
            forall|k: int| 1 <= k < m.len() ==> m[k - 1] < #[trigger] m[k],
            out@.len() == live_ast_count(v@.take(i as int)),
            worth_sum(out@) == worth_sum(v@.take(i as int)),
        decreases v@.len() - i,
    {
        let a = v[i];
        proof {
            assert(v@.take(i + 1).drop_last() =~= v@.take(i as int));
            assert(v@.take(i + 1).last() == a);
            if a.alive {
                lemma_worth_sum_push(out@, a);
            }
        }
        if a.alive {
            let ghost prev = out@;
            let ghost mprev = m;
            out.push(a);
            proof {
                m = m.push(i as int);
                assert forall|k: int| 0 <= k < m.len() implies {
                    &&& 0 <= #[trigger] m[k] < v@.len()
                    &&& out@[k] == v@[m[k]]
                    &&& out@[k].alive
                } by {
                    if k < mprev.len() {
                        assert(out@[k] == prev[k]);
                        assert(m[k] == mprev[k]);
                    } else {
                        assert(out@[k] == a);
                        assert(m[k] == i as int);
                    }
                }
                assert forall|k: int| 0 <= k < m.len() implies #[trigger] m[k] < i + 1 by {
                    if k < mprev.len() {
                        assert(m[k] == mprev[k]);
                    } else {
                        assert(m[k] == i as int);
                    }
                }
                assert forall|k: int| 1 <= k < m.len() implies m[k - 1] < #[trigger] m[k] by {
                    if k < mprev.len() {
                        assert(m[k] == mprev[k] && m[k - 1] == mprev[k - 1]);
                    } else {
                        assert(m[k] == i as int && m[k - 1] == mprev[k - 1]);
                    }
                }
            }
        }
        i = i + 1;
    }
    proof {
        assert(old(v)@.take(v@.len() as int) =~= old(v)@);
    }
    *v = out;
    Ghost(m)
}

/// The deterministic fallback wave used when placement sampling is
/// exhausted on a restart: every rock at the arena origin, which is
/// always farther than the safe radius from the fixed arena center.
fn fallback_wave() -> (v: Vec<Asteroid>)
    ensures
        v@.len() == INITIAL_ASTEROIDS,
        forall|i: int|
            0 <= i < v@.len() ==> {
                &&& (#[trigger] v@[i]).alive
                &&& v@[i].size == AsteroidSize::Big
                &&& ast_ok(v@[i])
                &&& v@[i].pos == (Vec2i { x: 0, y: 0 })
            },
        worth_sum(v@) == 2600,
{
    let mut v: Vec<Asteroid> = Vec::new();
    let mut k: usize = 0;
    while k < INITIAL_ASTEROIDS
        invariant
            k <= INITIAL_ASTEROIDS,
            v@.len() == k,
            forall|i: int|
                0 <= i < k ==> {
                    &&& (#[trigger] v@[i]).alive
                    &&& v@[i].size == AsteroidSize::Big
                    &&& ast_ok(v@[i])
                    &&& v@[i].pos == (Vec2i { x: 0, y: 0 })
                },
            worth_sum(v@) == 520 * k,
        decreases INITIAL_ASTEROIDS - k,
    {
        let a = Asteroid::new(Vec2i { x: 0, y: 0 }, AsteroidSize::Big);
        proof {
            lemma_worth_sum_push(v@, a);
        }
        v.push(a);
        k = k + 1;
    }
    v
}

/// One attempt series at placing a point uniformly inside the arena
/// but clear of the avoid point. Returns `None` only if the bounded
/// number of draws is exhausted, which with a clearance well below
/// the arena size does not happen in practice; a caller treats that
/// as a configuration error.
fn place_clear(avoid: Vec2i, w: i64, h: i64) -> (r: Option<Vec2i>)
    requires
        0 < w <= 1_000_000_000,
        0 < h <= 1_000_000_000,
        0 <= avoid.x <= 1_000_000_000,
        0 <= avoid.y <= 1_000_000_000,
    ensures
        match r {
            Some(p) => {
                &&& 0 <= p.x < w
                &&& 0 <= p.y < h
                &&& dist_sq(p, avoid) > SAFE_RADIUS_SQ
            },
            None => true,
        },
{
    let mut tries: u32 = 10_000;
    while tries > 0
        invariant
            0 < w <= 1_000_000_000,
            0 < h <= 1_000_000_000,
            0 <= avoid.x <= 1_000_000_000,
            0 <= avoid.y <= 1_000_000_000,
        decreases tries,
    {
        let p = Vec2i { x: rand_in(0, w - 1), y: rand_in(0, h - 1) };
        if dist_sq_ex(p, avoid) > SAFE_RADIUS_SQ {
            return Some(p);
        }
        tries = tries - 1;
    }
    None
}

/// The first live asteroid at or after slot `j` that the bullet's
/// collision circle overlaps, if any — the scan order of the
/// bullet-asteroid pass.
pub open spec fn first_hit_from(b: Bullet, s: Seq<Asteroid>, j: int) -> Option<int>
    decreases s.len() - j,
{
    if j < 0 || j >= s.len() {
        None
    } else if s[j].alive && circles_overlap(b.pos, BULLET_RADIUS as int, s[j].pos, radius_of(s[j].size)) {
        Some(j)
    } else {
        first_hit_from(b, s, j + 1)
    }
}

/// A scan that found nothing means no live asteroid from `j` on
/// overlaps the bullet.
pub proof fn lemma_first_hit_none(b: Bullet, s: Seq<Asteroid>, j: int)
    requires
        0 <= j,
        first_hit_from(b, s, j) is None,
    ensures
        forall|k: int|
            j <= k < s.len() ==> !((#[trigger] s[k]).alive && circles_overlap(
                b.pos,
                BULLET_RADIUS as int,
                s[k].pos,
                radius_of(s[k].size),
            )),
    decreases s.len() - j,
{
    if j < s.len() {
        lemma_first_hit_none(b, s, j + 1);
    }
}

/// A found slot is live, overlapping, and the first such.
pub proof fn lemma_first_hit_some(b: Bullet, s: Seq<Asteroid>, j: int, j0: int)
    requires
        0 <= j,
        first_hit_from(b, s, j) == Some(j0),
    ensures
        j <= j0 < s.len(),
        s[j0].alive,
        circles_overlap(b.pos, BULLET_RADIUS as int, s[j0].pos, radius_of(s[j0].size)),
        forall|k: int|
            j <= k < j0 ==> !((#[trigger] s[k]).alive && circles_overlap(
                b.pos,
                BULLET_RADIUS as int,
                s[k].pos,
                radius_of(s[k].size),
            )),
    decreases s.len() - j,
{
    if j < s.len() && !(s[j].alive && circles_overlap(
        b.pos,
        BULLET_RADIUS as int,
        s[j].pos,
        radius_of(s[j].size),
    )) {
        lemma_first_hit_some(b, s, j + 1, j0);
    }
}

/// One bullet's turn in the collision pass: if the bullet is live,
/// scan the asteroids in order and resolve its first qualifying
/// overlap — kill both, award the asteroid's score, stage its two
/// children — then stop scanning for this bullet.
fn strike(
    bullets: &mut Vec<Bullet>,
    i: usize,
    asteroids: &mut Vec<Asteroid>,
    staged: &mut Vec<Asteroid>,
    score: &mut u32,
)
    requires
        i < old(bullets)@.len(),
        bullet_ok(old(bullets)@[i as int]),
        forall|j: int| 0 <= j < old(asteroids)@.len() ==> ast_ok(#[trigger] old(asteroids)@[j]),
        *old(score) + worth_sum(old(asteroids)@) + worth_sum(old(staged)@) <= WAVE_WORTH,
    ensures
        final(bullets)@.len() == old(bullets)@.len(),
        final(asteroids)@.len() == old(asteroids)@.len(),
        *final(score) + worth_sum(final(asteroids)@) + worth_sum(final(staged)@) == *old(score)
            + worth_sum(old(asteroids)@) + worth_sum(old(staged)@),
        *final(score) >= *old(score),
        !old(bullets)@[i as int].alive ==> {
            &&& final(bullets)@ == old(bullets)@
            &&& final(asteroids)@ == old(asteroids)@
            &&& final(staged)@ == old(staged)@
            &&& *final(score) == *old(score)
        },
        old(bullets)@[i as int].alive ==> match first_hit_from(
            old(bullets)@[i as int],
            old(asteroids)@,
            0,
        ) {
            None => {
                &&& final(bullets)@ == old(bullets)@
                &&& final(asteroids)@ == old(asteroids)@
                &&& final(staged)@ == old(staged)@
                &&& *final(score) == *old(score)
            },
            Some(j0) => {
                &&& final(bullets)@ == old(bullets)@.update(
                    i as int,
                    Bullet {
                        pos: old(bullets)@[i as int].pos,
                        vel: old(bullets)@[i as int].vel,
                        lifetime: old(bullets)@[i as int].lifetime,
                        alive: false,
                    },
                )
                &&& final(asteroids)@ == old(asteroids)@.update(
                    j0,
                    Asteroid {
                        pos: old(asteroids)@[j0].pos,
                        vel: old(asteroids)@[j0].vel,
                        rotation: old(asteroids)@[j0].rotation,
                        rot_speed: old(asteroids)@[j0].rot_speed,
                        size: old(asteroids)@[j0].size,
                        alive: false,
                    },
                )
                &&& *final(score) == *old(score) + score_of(old(asteroids)@[j0].size)
                &&& match child_of(old(asteroids)@[j0].size) {
                    None => final(staged)@ == old(staged)@,
                    Some(cs) => {
                        &&& final(staged)@.len() == old(staged)@.len() + 2
                        &&& forall|k: int|
                            0 <= k < old(staged)@.len() ==> final(staged)@[k] == old(staged)@[k]
                        &&& forall|k: int|
                            old(staged)@.len() <= k < final(staged)@.len() ==> {
                                &&& (#[trigger] final(staged)@[k]).alive
                                &&& final(staged)@[k].size == cs
                                &&& final(staged)@[k].pos == old(asteroids)@[j0].pos
                                &&& ast_ok(final(staged)@[k])
                            }
                    },
                }
            },
        },
{
    let b = bullets[i];
    if !b.alive {
        return ;
    }
    let ghost oa = asteroids@;
    let mut j: usize = 0;
    while j < asteroids.len()
        invariant
            j <= oa.len(),
            i < bullets@.len(),
            bullets@ == old(bullets)@,
            b == old(bullets)@[i as int],
            b.alive,
            bullet_ok(b),
            asteroids@ == oa,
            oa == old(asteroids)@,
            staged@ == old(staged)@,
            *score == *old(score),
            forall|k: int| 0 <= k < oa.len() ==> ast_ok(#[trigger] oa[k]),
            first_hit_from(b, oa, 0) == first_hit_from(b, oa, j as int),
            *old(score) + worth_sum(old(asteroids)@) + worth_sum(old(staged)@) <= WAVE_WORTH,
        decreases oa.len() - j,
    {
        let a = asteroids[j];
        if a.alive && hits(b.pos, BULLET_RADIUS, a.pos, a.size.radius()) {
            proof {
                assert(first_hit_from(b, oa, j as int) == Some(j as int));
            }
            bullets[i].alive = false;
            asteroids[j].alive = false;
            proof {
                lemma_worth_sum_update(
                    oa,
                    j as int,
                    Asteroid {
                        pos: a.pos,
                        vel: a.vel,
                        rotation: a.rotation,
                        rot_speed: a.rot_speed,
                        size: a.size,
                        alive: false,
                    },
                );
                lemma_worth_sum_nonneg(asteroids@);
                lemma_worth_sum_nonneg(staged@);
                crate::asteroid::lemma_chain_score_recurrence(a.size);
                assert(asteroids@ == oa.update(
                    j as int,
                    Asteroid {
                        pos: a.pos,
                        vel: a.vel,
                        rotation: a.rotation,
                        rot_speed: a.rot_speed,
                        size: a.size,
                        alive: false,
                    },
                ));
                assert(worth_sum(oa) == worth_sum(asteroids@) + chain_score(a.size));
                assert(*score + chain_score(a.size) <= WAVE_WORTH);
            }
            *score = *score + a.size.score();
            let mut children = a.split();
            proof {
                reveal_with_fuel(worth_sum, 4);
                let cv = children@;
                if child_of(a.size) is Some {
                    assert(cv.drop_last().drop_last().len() == 0);
                    assert(worth_sum(cv.drop_last().drop_last()) == 0);
                    assert(cv.drop_last().last() == cv[0]);
                    assert(cv.last() == cv[1]);
                    assert(worth_sum(cv) == ast_contrib(cv[0]) + ast_contrib(cv[1]));
                } else {
                    assert(worth_sum(cv) == 0);
                }
                lemma_worth_sum_concat(staged@, cv);
            }
            staged.append(&mut children);
            return ;
        }
        j = j + 1;
    }
    proof {
        lemma_first_hit_none(b, oa, oa.len() as int);
    }
}

/// The central owner of everything in a running game.
pub struct Game {
    pub player: Player,
    pub bullets: Vec<Bullet>,
    pub asteroids: Vec<Asteroid>,
    pub state: GameState,
    pub score: u32,
}

/// Well-formedness of a whole game: every entity is well-formed, and
/// the score already taken plus the worth still locked up in live
/// asteroids never exceeds what one wave offers — which keeps the
/// score far away from overflowing.
pub open spec fn game_ok(g: Game) -> bool {
    &&& player_ok(g.player)
    &&& forall|i: int| 0 <= i < g.bullets@.len() ==> bullet_ok(#[trigger] g.bullets@[i])
    &&& forall|j: int| 0 <= j < g.asteroids@.len() ==> ast_ok(#[trigger] g.asteroids@[j])
    &&& g.score + worth_sum(g.asteroids@) <= WAVE_WORTH
}

impl Game {
    /// Places `count` big asteroids uniformly at random inside the
    /// arena, each strictly farther than the safe radius from the
    /// avoid point. `None` only on the configuration error of an
    /// unsatisfiable clearance (see `place_clear`).
    pub fn spawn_asteroids(count: usize, avoid: Vec2i, w: i64, h: i64) -> (r: Option<
        Vec<Asteroid>,
    >)
        requires
            count <= 1000,
            0 < w <= 1_000_000_000,
            0 < h <= 1_000_000_000,
            0 <= avoid.x <= 1_000_000_000,
            0 <= avoid.y <= 1_000_000_000,
        ensures
            count == 0 ==> r is Some,
            match r {
                Some(v) => {
                    &&& v@.len() == count
                    &&& forall|i: int|
                        0 <= i < count ==> {
                            &&& (#[trigger] v@[i]).alive
                            &&& v@[i].size == AsteroidSize::Big
                            &&& ast_ok(v@[i])
                            &&& 0 <= v@[i].pos.x < w
                            &&& 0 <= v@[i].pos.y < h
                            &&& dist_sq(v@[i].pos, avoid) > SAFE_RADIUS_SQ
                        }
                    &&& worth_sum(v@) == 520 * count
                },
                None => true,
            },
    {
        let mut v: Vec<Asteroid> = Vec::new();
        let mut k: usize = 0;
        while k < count
            invariant
                k <= count,
                count <= 1000,
                0 < w <= 1_000_000_000,
                0 < h <= 1_000_000_000,
                0 <= avoid.x <= 1_000_000_000,
                0 <= avoid.y <= 1_000_000_000,
                v@.len() == k,
                forall|i: int|
                    0 <= i < k ==> {
                        &&& (#[trigger] v@[i]).alive
                        &&& v@[i].size == AsteroidSize::Big
                        &&& ast_ok(v@[i])
                        &&& 0 <= v@[i].pos.x < w
                        &&& 0 <= v@[i].pos.y < h
                        &&& dist_sq(v@[i].pos, avoid) > SAFE_RADIUS_SQ
                    },
                worth_sum(v@) == 520 * k,
            decreases count - k,
        {
            match place_clear(avoid, w, h) {
                None => {
                    return None;
                },
                Some(p) => {
                    let a = Asteroid::new(p, AsteroidSize::Big);
                    proof {
                        lemma_worth_sum_push(v@, a);
                    }
                    v.push(a);
                },
            }
            k = k + 1;
        }
        Some(v)
    }

    /// A fresh game: the player at the arena center, no bullets, no
    /// score, one wave of big asteroids placed clear of the player.
    /// `None` only on the spawn-placement configuration error.
    pub fn new(w: i64, h: i64) -> (r: Option<Game>)
        requires
            0 < w <= 1_000_000_000,
            0 < h <= 1_000_000_000,
        ensures
            match r {
                Some(g) => {
                    &&& game_ok(g)
                    &&& g.state == GameState::Playing
                    &&& g.score == 0
                    &&& g.bullets@.len() == 0
                    &&& g.player == (Player {
                        pos: Vec2i { x: 640_000, y: 360_000 },
                        vel: Vec2i { x: 0, y: 0 },
                        rotation: 0,
                        cooldown: 0,
                        alive: true,
                    })
                    &&& g.asteroids@.len() == INITIAL_ASTEROIDS
                    &&& forall|i: int|
                        0 <= i < g.asteroids@.len() ==> {
                            &&& (#[trigger] g.asteroids@[i]).alive
                            &&& g.asteroids@[i].size == AsteroidSize::Big
                            &&& dist_sq(g.asteroids@[i].pos, g.player.pos) > SAFE_RADIUS_SQ
                        }
                },
                None => true,
            },
    {
        let player = Player::new();
        match Self::spawn_asteroids(INITIAL_ASTEROIDS, player.pos, w, h) {
            None => None,
            Some(asteroids) => Some(
                Game {
                    player,
                    bullets: Vec::new(),
                    asteroids,
                    state: GameState::Playing,
                    score: 0,
                },
            ),
        }
    }

    /// The bullet-asteroid collision pass: every live bullet is held
    /// against every live asteroid in order; on a bullet's first
    /// overlap both die, the asteroid's score is awarded, and its
    /// children are staged into a side buffer that is merged only
    /// after the whole scan (never mutating the scanned collection).
    /// A bullet kills at most one asteroid per frame and an asteroid
    /// is credited to at most one bullet: the numbers of bullets and
    /// of asteroids that die in the pass are equal, each killed
    /// asteroid was overlapped by a bullet that died, and no live
    /// bullet is left overlapping a live asteroid. The score taken
    /// plus the worth still locked in live asteroids is conserved.
    #[verifier::rlimit(100)]
    #[verifier::spinoff_prover]
    pub fn resolve_hits(&mut self)
        requires
            forall|i: int|
                0 <= i < old(self).bullets@.len() ==> bullet_ok(#[trigger] old(self).bullets@[i]),
            forall|j: int|
                0 <= j < old(self).asteroids@.len() ==> ast_ok(#[trigger] old(self).asteroids@[j]),
            old(self).score + worth_sum(old(self).asteroids@) <= WAVE_WORTH,
        ensures
            final(self).player == old(self).player,
            final(self).state == old(self).state,
            final(self).bullets@.len() == old(self).bullets@.len(),
            forall|i: int|
                0 <= i < old(self).bullets@.len() ==> {
                    &&& (#[trigger] final(self).bullets@[i]).pos == old(self).bullets@[i].pos
                    &&& final(self).bullets@[i].vel == old(self).bullets@[i].vel
                    &&& final(self).bullets@[i].lifetime == old(self).bullets@[i].lifetime
                    &&& (final(self).bullets@[i].alive ==> old(self).bullets@[i].alive)
                },
            old(self).asteroids@.len() <= final(self).asteroids@.len(),
            forall|j: int|
                0 <= j < old(self).asteroids@.len() ==> {
                    &&& (#[trigger] final(self).asteroids@[j]).pos == old(self).asteroids@[j].pos
                    &&& final(self).asteroids@[j].vel == old(self).asteroids@[j].vel
                    &&& final(self).asteroids@[j].rotation == old(self).asteroids@[j].rotation
                    &&& final(self).asteroids@[j].rot_speed == old(self).asteroids@[j].rot_speed
                    &&& final(self).asteroids@[j].size == old(self).asteroids@[j].size
                    &&& (final(self).asteroids@[j].alive ==> old(self).asteroids@[j].alive)
                },
            forall|k: int|
                old(self).asteroids@.len() <= k < final(self).asteroids@.len() ==> {
                    &&& (#[trigger] final(self).asteroids@[k]).alive
                    &&& exists|j: int|
                        0 <= j < old(self).asteroids@.len() && (#[trigger] old(self).asteroids@[j]).alive
                            && !final(self).asteroids@[j].alive && final(self).asteroids@[k].pos == old(self).asteroids@[j].pos
                            && child_of(old(self).asteroids@[j].size) == Some(final(self).asteroids@[k].size)
                },
            final(self).score + worth_sum(final(self).asteroids@) == old(self).score + worth_sum(old(self).asteroids@),
            final(self).score >= old(self).score,
            forall|i: int, j: int|
                0 <= i < old(self).bullets@.len() && 0 <= j < old(self).asteroids@.len() && (
                #[trigger] final(self).bullets@[i]).alive && (#[trigger] final(self).asteroids@[j]).alive
                    ==> !circles_overlap(
                    old(self).bullets@[i].pos,
                    BULLET_RADIUS as int,
                    old(self).asteroids@[j].pos,
                    radius_of(old(self).asteroids@[j].size),
                ),
            forall|j: int|
                0 <= j < old(self).asteroids@.len() && (#[trigger] old(self).asteroids@[j]).alive
                    && !final(self).asteroids@[j].alive ==> exists|i: int|
                    0 <= i < old(self).bullets@.len() && (#[trigger] old(self).bullets@[i]).alive
                        && !final(self).bullets@[i].alive && circles_overlap(
                        old(self).bullets@[i].pos,
                        BULLET_RADIUS as int,
                        old(self).asteroids@[j].pos,
                        radius_of(old(self).asteroids@[j].size),
                    ),
            forall|i: int|
                0 <= i < old(self).bullets@.len() && (#[trigger] old(self).bullets@[i]).alive
                    && !final(self).bullets@[i].alive ==> exists|j: int|
                    0 <= j < old(self).asteroids@.len() && (#[trigger] old(self).asteroids@[j]).alive
                        && !final(self).asteroids@[j].alive && circles_overlap(
                        old(self).bullets@[i].pos,
                        BULLET_RADIUS as int,
                        old(self).asteroids@[j].pos,
                        radius_of(old(self).asteroids@[j].size),
                    ),
            forall|i: int, j: int|
                0 <= i < old(self).bullets@.len() && 0 <= j < old(self).asteroids@.len() && (
                #[trigger] final(self).bullets@[i]).alive && (#[trigger] old(self).asteroids@[j]).alive
                    && circles_overlap(
                    old(self).bullets@[i].pos,
                    BULLET_RADIUS as int,
                    old(self).asteroids@[j].pos,
                    radius_of(old(self).asteroids@[j].size),
                ) ==> !final(self).asteroids@[j].alive && exists|i2: int|
                    0 <= i2 < i && (#[trigger] old(self).bullets@[i2]).alive && !final(self).bullets@[i2].alive
                        && circles_overlap(
                        old(self).bullets@[i2].pos,
                        BULLET_RADIUS as int,
                        old(self).asteroids@[j].pos,
                        radius_of(old(self).asteroids@[j].size),
                    ),
            killed_bullets(old(self).bullets@, final(self).bullets@, old(self).bullets@.len() as int) == killed_asts(
                old(self).asteroids@,
                final(self).asteroids@,
                old(self).asteroids@.len() as int,
            ),
            forall|i: int|
                0 <= i < final(self).bullets@.len() ==> bullet_ok(
                    #[trigger] final(self).bullets@[i],
                ),
            forall|j: int|
                0 <= j < final(self).asteroids@.len() ==> ast_ok(
                    #[trigger] final(self).asteroids@[j],
                ),
    {
        let ghost ob = self.bullets@;
        let ghost oa = self.asteroids@;
        let ghost s0 = self.score;
        let ghost n = oa.len() as int;
        let mut staged: Vec<Asteroid> = Vec::new();
        let ghost mut credits: Map<int, int> = Map::empty();
        let ghost mut shots: Map<int, int> = Map::empty();
        let ghost mut parents: Map<int, int> = Map::empty();
        let mut i: usize = 0;
        proof {
            lemma_killed_bullets_refl(ob, ob.len() as int);
            lemma_killed_asts_refl(oa, n);
        }
        while i < self.bullets.len()
            invariant
                i <= ob.len(),
                n == oa.len(),
                ob == old(self).bullets@,
                oa == old(self).asteroids@,
                s0 == old(self).score,
                self.bullets@.len() == ob.len(),
                self.asteroids@.len() == n,
                self.player == old(self).player,
                self.state == old(self).state,
                forall|k: int| 0 <= k < ob.len() ==> bullet_ok(#[trigger] ob[k]),
                forall|j: int| 0 <= j < n ==> ast_ok(#[trigger] oa[j]),
                s0 + worth_sum(oa) <= WAVE_WORTH,
                forall|k: int|
                    0 <= k < ob.len() ==> {
                        &&& (#[trigger] self.bullets@[k]).pos == ob[k].pos
                        &&& self.bullets@[k].vel == ob[k].vel
                        &&& self.bullets@[k].lifetime == ob[k].lifetime
                        &&& (self.bullets@[k].alive ==> ob[k].alive)
                    },
                forall|k: int|
                    i <= k < ob.len() ==> (#[trigger] self.bullets@[k]).alive == ob[k].alive,
                forall|j: int|
                    0 <= j < n ==> {
                        &&& (#[trigger] self.asteroids@[j]).pos == oa[j].pos
                        &&& self.asteroids@[j].vel == oa[j].vel
                        &&& self.asteroids@[j].rotation == oa[j].rotation
                        &&& self.asteroids@[j].rot_speed == oa[j].rot_speed
                        &&& self.asteroids@[j].size == oa[j].size
                        &&& (self.asteroids@[j].alive ==> oa[j].alive)
                    },
                forall|k: int|
                    0 <= k < staged@.len() ==> {
                        &&& (#[trigger] staged@[k]).alive
                        &&& ast_ok(staged@[k])
                        &&& parents.contains_key(k)
                    },
                forall|k: int|
                    #![trigger parents[k]]
                    0 <= k < staged@.len() && parents.contains_key(k) ==> {
                        &&& 0 <= parents[k] < n
                        &&& oa[parents[k]].alive
                        &&& !self.asteroids@[parents[k]].alive
                        &&& staged@[k].pos == oa[parents[k]].pos
                        &&& child_of(oa[parents[k]].size) == Some(staged@[k].size)
                    },
                self.score + worth_sum(self.asteroids@) + worth_sum(staged@) == s0 + worth_sum(oa),
                self.score >= s0,
                forall|k: int, j: int|
                    0 <= k < i && 0 <= j < n && (#[trigger] self.bullets@[k]).alive && (
                    #[trigger] self.asteroids@[j]).alive ==> !circles_overlap(
                        ob[k].pos,
                        BULLET_RADIUS as int,
                        oa[j].pos,
                        radius_of(oa[j].size),
                    ),
                forall|j: int|
                    #![trigger credits.contains_key(j)]
                    #![trigger credits[j]]
                    0 <= j < n && oa[j].alive && !(self.asteroids@[j]).alive ==> {
                        &&& credits.contains_key(j)
                        &&& 0 <= credits[j] < ob.len()
                        &&& credits[j] < i
                        &&& ob[credits[j]].alive
                        &&& !self.bullets@[credits[j]].alive
                        &&& circles_overlap(
                            ob[credits[j]].pos,
                            BULLET_RADIUS as int,
                            oa[j].pos,
                            radius_of(oa[j].size),
                        )
                    },
                forall|k: int, j: int|
                    0 <= k < i && 0 <= j < n && (#[trigger] self.bullets@[k]).alive && (
                    #[trigger] oa[j]).alive && circles_overlap(
                        ob[k].pos,
                        BULLET_RADIUS as int,
                        oa[j].pos,
                        radius_of(oa[j].size),
                    ) ==> {
                        &&& !self.asteroids@[j].alive
                        &&& credits.contains_key(j)
                        &&& credits[j] < k
                    },
                forall|k: int|
                    #![trigger shots.contains_key(k)]
                    #![trigger shots[k]]
                    0 <= k < ob.len() && ob[k].alive && !(self.bullets@[k]).alive ==> {
                        &&& shots.contains_key(k)
                        &&& 0 <= shots[k] < n
                        &&& oa[shots[k]].alive
                        &&& !self.asteroids@[shots[k]].alive
                        &&& circles_overlap(
                            ob[k].pos,
                            BULLET_RADIUS as int,
                            oa[shots[k]].pos,
                            radius_of(oa[shots[k]].size),
                        )
                    },
                killed_bullets(ob, self.bullets@, ob.len() as int) == killed_asts(
                    oa,
                    self.asteroids@,
                    n,
                ),
            decreases ob.len() - i,
        {
            let ghost bs = self.bullets@;
            let ghost asv = self.asteroids@;
            let ghost st = staged@;
            let ghost sc = self.score;
            proof {
                assert(bullet_ok(bs[i as int]));
                assert(sc + worth_sum(asv) + worth_sum(st) <= WAVE_WORTH + worth_sum(st)) by {
                    lemma_worth_sum_nonneg(st);
                };
            }
            strike(&mut self.bullets, i, &mut self.asteroids, &mut staged, &mut self.score);
            proof {
                if bs[i as int].alive {
                    let fh = first_hit_from(bs[i as int], asv, 0);
                    if fh is Some {
                        let j0 = fh->0;
                        lemma_first_hit_some(bs[i as int], asv, 0, j0);
                        let deadb = Bullet {
                            pos: bs[i as int].pos,
                            vel: bs[i as int].vel,
                            lifetime: bs[i as int].lifetime,
                            alive: false,
                        };
                        let deada = Asteroid {
                            pos: asv[j0].pos,
                            vel: asv[j0].vel,
                            rotation: asv[j0].rotation,
                            rot_speed: asv[j0].rot_speed,
                            size: asv[j0].size,
                            alive: false,
                        };
                        assert(self.bullets@ == bs.update(i as int, deadb));
                        assert(self.asteroids@ == asv.update(j0, deada));
                        lemma_killed_bullets_update(ob, bs, i as int, deadb, ob.len() as int);
                        lemma_killed_asts_update(oa, asv, j0, deada, n);
                        let credits0 = credits;
                        credits = credits.insert(j0, i as int);
                        shots = shots.insert(i as int, j0);
                        if child_of(asv[j0].size) is Some {
                            parents = parents.insert(st.len() as int, j0).insert(
                                st.len() as int + 1,
                                j0,
                            );
                        }
                        assert forall|k: int, j: int|
                            0 <= k < i + 1 && 0 <= j < n && (#[trigger] self.bullets@[k]).alive
                                && (#[trigger] oa[j]).alive && circles_overlap(
                                ob[k].pos,
                                BULLET_RADIUS as int,
                                oa[j].pos,
                                radius_of(oa[j].size),
                            ) implies {
                            &&& !self.asteroids@[j].alive
                            &&& credits.contains_key(j)
                            &&& credits[j] < k
                        } by {
                            assert(!self.bullets@[i as int].alive);
                            assert(k < i);
                            assert(self.bullets@[k] == bs[k]);
                            if j == j0 {
                                // an overlapping surviving bullet before this one would have
                                // violated the no-live-overlap invariant while j0 was alive
                                assert(bs[k].alive && asv[j0].alive);
                                assert(false);
                            } else {
                                assert(self.asteroids@[j] == asv[j]);
                                assert(credits[j] == credits0[j]);
                            }
                        }
                    } else {
                        lemma_first_hit_none(bs[i as int], asv, 0);
                        assert forall|j: int|
                            0 <= j < n && (#[trigger] self.asteroids@[j]).alive implies !circles_overlap(
                            ob[i as int].pos,
                            BULLET_RADIUS as int,
                            oa[j].pos,
                            radius_of(oa[j].size),
                        ) by {
                            assert(asv[j].alive);
                            assert(asv[j].pos == oa[j].pos && asv[j].size == oa[j].size);
                            assert(bs[i as int].pos == ob[i as int].pos);
                        }
                        assert forall|j: int|
                            0 <= j < n && (#[trigger] oa[j]).alive && circles_overlap(
                                ob[i as int].pos,
                                BULLET_RADIUS as int,
                                oa[j].pos,
                                radius_of(oa[j].size),
                            ) implies {
                            &&& !self.asteroids@[j].alive
                            &&& credits.contains_key(j)
                            &&& credits[j] < i
                        } by {
                            assert(asv[j].pos == oa[j].pos && asv[j].size == oa[j].size);
                            assert(bs[i as int].pos == ob[i as int].pos);
                            assert(!asv[j].alive);
                            assert(self.asteroids@[j] == asv[j]);
                        }
                    }
                }
            }
            i = i + 1;
        }
        proof {
            lemma_worth_sum_concat(self.asteroids@, staged@);
            lemma_killed_asts_frame(
                oa,
                self.asteroids@,
                self.asteroids@ + staged@,
                n,
            );
        }
        let ghost pre_append = self.asteroids@;
        let ghost st_final = staged@;
        self.asteroids.append(&mut staged);
        proof {
            assert(self.asteroids@ == pre_append + st_final);
            assert forall|k: int|
                n <= k < self.asteroids@.len() implies {
                &&& (#[trigger] self.asteroids@[k]).alive
                &&& ast_ok(self.asteroids@[k])
                &&& exists|j: int|
                    0 <= j < n && (#[trigger] oa[j]).alive && !self.asteroids@[j].alive
                        && self.asteroids@[k].pos == oa[j].pos && child_of(oa[j].size) == Some(
                        self.asteroids@[k].size,
                    )
            } by {
                assert(self.asteroids@[k] == st_final[k - n]);
                let j = parents[k - n];
                assert(self.asteroids@[j] == pre_append[j]);
                assert(oa[j].alive && !self.asteroids@[j].alive && self.asteroids@[k].pos == oa[j].pos
                    && child_of(oa[j].size) == Some(self.asteroids@[k].size));
            }
            assert forall|j: int|
                0 <= j < n && (#[trigger] oa[j]).alive && !self.asteroids@[j].alive implies exists|i: int|
                0 <= i < ob.len() && (#[trigger] ob[i]).alive && !self.bullets@[i].alive
                    && circles_overlap(
                    ob[i].pos,
                    BULLET_RADIUS as int,
                    oa[j].pos,
                    radius_of(oa[j].size),
                ) by {
                assert(self.asteroids@[j] == pre_append[j]);
                let i0 = credits[j];
                assert(0 <= i0 < ob.len() && ob[i0].alive && !self.bullets@[i0].alive
                    && circles_overlap(
                    ob[i0].pos,
                    BULLET_RADIUS as int,
                    oa[j].pos,
                    radius_of(oa[j].size),
                ));
            }
            assert forall|i: int|
                0 <= i < ob.len() && (#[trigger] ob[i]).alive && !self.bullets@[i].alive implies exists|j: int|
                0 <= j < n && (#[trigger] oa[j]).alive && !self.asteroids@[j].alive
                    && circles_overlap(
                    ob[i].pos,
                    BULLET_RADIUS as int,
                    oa[j].pos,
                    radius_of(oa[j].size),
                ) by {
                let j0 = shots[i];
                assert(self.asteroids@[j0] == pre_append[j0]);
                assert(0 <= j0 < n && oa[j0].alive && !self.asteroids@[j0].alive && circles_overlap(
                    ob[i].pos,
                    BULLET_RADIUS as int,
                    oa[j0].pos,
                    radius_of(oa[j0].size),
                ));
            }
            assert forall|k: int| 0 <= k < ob.len() implies bullet_ok(
                #[trigger] self.bullets@[k],
            ) by {
                assert(bullet_ok(ob[k]));
            }
            assert forall|i2: int, j: int|
                0 <= i2 < ob.len() && 0 <= j < n && (#[trigger] self.bullets@[i2]).alive && (
                #[trigger] oa[j]).alive && circles_overlap(
                    ob[i2].pos,
                    BULLET_RADIUS as int,
                    oa[j].pos,
                    radius_of(oa[j].size),
                ) implies !self.asteroids@[j].alive && exists|i3: int|
                    0 <= i3 < i2 && ob[i3].alive && !self.bullets@[i3].alive && circles_overlap(
                        ob[i3].pos,
                        BULLET_RADIUS as int,
                        oa[j].pos,
                        radius_of(oa[j].size),
                    ) by {
                assert(self.asteroids@[j] == pre_append[j]);
                assert(!pre_append[j].alive && credits.contains_key(j) && credits[j] < i2);
                let i3 = credits[j];
                assert(0 <= i3 < i2 && ob[i3].alive && !self.bullets@[i3].alive
                    && circles_overlap(
                    ob[i3].pos,
                    BULLET_RADIUS as int,
                    oa[j].pos,
                    radius_of(oa[j].size),
                ));
            }
            assert forall|j: int| 0 <= j < self.asteroids@.len() implies ast_ok(
                #[trigger] self.asteroids@[j],
            ) by {
                if j < n {
                    assert(self.asteroids@[j] == pre_append[j]);
                    assert(ast_ok(oa[j]));
                } else {
                    assert(self.asteroids@[j] == st_final[j - n]);
                }
            }
        }
    }

    /// Whether any live asteroid currently overlaps the player's
    /// collision circle — the exact overlap predicate, nothing else.
    pub fn player_hit(&self) -> (hit: bool)
        requires
            player_ok(self.player),
            forall|j: int| 0 <= j < self.asteroids@.len() ==> ast_ok(#[trigger] self.asteroids@[j]),
        ensures
            hit <==> exists|j: int|
                0 <= j < self.asteroids@.len() && (#[trigger] self.asteroids@[j]).alive
                    && circles_overlap(
                    self.player.pos,
                    PLAYER_RADIUS as int,
                    self.asteroids@[j].pos,
                    radius_of(self.asteroids@[j].size),
                ),
    {
        let mut j: usize = 0;
        while j < self.asteroids.len()
            invariant
                j <= self.asteroids@.len(),
                player_ok(self.player),
                forall|k: int|
                    0 <= k < self.asteroids@.len() ==> ast_ok(#[trigger] self.asteroids@[k]),
                forall|k: int|
                    0 <= k < j ==> !((#[trigger] self.asteroids@[k]).alive && circles_overlap(
                        self.player.pos,
                        PLAYER_RADIUS as int,
                        self.asteroids@[k].pos,
                        radius_of(self.asteroids@[k].size),
                    )),
            decreases self.asteroids@.len() - j,
        {
            let a = self.asteroids[j];
            if a.alive && hits(self.player.pos, PLAYER_RADIUS, a.pos, a.size.radius()) {
                return true;
            }
            j = j + 1;
        }
        false
    }

    /// Moves everything one frame: the player (who may request one
    /// bullet, which is appended and then moved like the rest), all
    /// bullets, all asteroids. No collision logic; the phase, the
    /// score and the locked-up worth are untouched.
    fn move_entities(&mut self, input: InputFrame, dt: i64, w: i64, h: i64)
        requires
            game_ok(*old(self)),
            0 <= dt <= 10_000_000,
            0 < w <= 1_000_000_000,
            0 < h <= 1_000_000_000,
        ensures
            final(self).player.rotation == rot_after(old(self).player, input, dt as int),
            final(self).player.vel.x == vel_after_x(old(self).player, input, dt as int),
            final(self).player.vel.y == vel_after_y(old(self).player, input, dt as int),
            final(self).player.pos.x == pos_after_x(old(self).player, input, dt as int, w as int),
            final(self).player.pos.y == pos_after_y(old(self).player, input, dt as int, h as int),
            final(self).player.cooldown == cooldown_after(old(self).player, input, dt as int),
            final(self).player.alive == old(self).player.alive,
            player_ok(final(self).player),
            final(self).state == old(self).state,
            final(self).score == old(self).score,
            final(self).bullets@.len() == old(self).bullets@.len() + (if fires(
                old(self).player,
                input,
                dt as int,
            ) {
                1int
            } else {
                0int
            }),
            forall|k: int|
                0 <= k < final(self).bullets@.len() ==> bullet_ok(#[trigger] final(self).bullets@[k]),
            forall|k: int|
                0 <= k < old(self).bullets@.len() ==> bullet_stepped(
                    old(self).bullets@[k],
                    #[trigger] final(self).bullets@[k],
                    dt as int,
                    w as int,
                    h as int,
                ),
            fires(old(self).player, input, dt as int) ==> exists|f: Bullet|
                fired_bullet_spec(old(self).player, input, dt as int, w as int, h as int, f)
                    && bullet_stepped(
                    f,
                    final(self).bullets@[final(self).bullets@.len() - 1],
                    dt as int,
                    w as int,
                    h as int,
                ),
            final(self).asteroids@.len() == old(self).asteroids@.len(),
            forall|k: int|
                0 <= k < final(self).asteroids@.len() ==> ast_ok(#[trigger] final(self).asteroids@[k]),
            forall|k: int|
                0 <= k < old(self).asteroids@.len() ==> ast_stepped(
                    old(self).asteroids@[k],
                    #[trigger] final(self).asteroids@[k],
                    dt as int,
                    w as int,
                    h as int,
                ),
            worth_sum(final(self).asteroids@) == worth_sum(old(self).asteroids@),
    {
        let ghost g0 = *self;
        let shot = self.player.update(input, dt, w, h);
        match shot {
            Some(bpos) => {
                let dir = facing(self.player.rotation);
                proof {
                    assert(bpos.x == self.player.pos.x + dir.x * 32);
                    assert(bpos.y == self.player.pos.y + dir.y * 32);
                }
                let b = Bullet::new(bpos, dir);
                proof {
                    assert(fired_bullet_spec(g0.player, input, dt as int, w as int, h as int, b));
                }
                self.bullets.push(b);
            },
            None => {},
        }
        let ghost b0 = self.bullets@;
        let mut i: usize = 0;
        while i < self.bullets.len()
            invariant
                i <= self.bullets@.len(),
                0 <= dt <= 10_000_000,
                0 < w <= 1_000_000_000,
                0 < h <= 1_000_000_000,
                forall|k: int|
                    0 <= k < self.bullets@.len() ==> bullet_ok(#[trigger] self.bullets@[k]),
                self.bullets@.len() == b0.len(),
                forall|k: int| 0 <= k < b0.len() ==> bullet_ok(#[trigger] b0[k]),
                forall|k: int|
                    0 <= k < i ==> bullet_stepped(
                        b0[k],
                        #[trigger] self.bullets@[k],
                        dt as int,
                        w as int,
                        h as int,
                    ),
                forall|k: int| i <= k < b0.len() ==> #[trigger] self.bullets@[k] == b0[k],
                b0.len() == g0.bullets@.len() + (if fires(g0.player, input, dt as int) {
                    1int
                } else {
                    0int
                }),
                forall|k: int| 0 <= k < g0.bullets@.len() ==> #[trigger] b0[k] == g0.bullets@[k],
                fires(g0.player, input, dt as int) ==> fired_bullet_spec(
                    g0.player,
                    input,
                    dt as int,
                    w as int,
                    h as int,
                    b0[b0.len() - 1],
                ),
                self.player.rotation == rot_after(g0.player, input, dt as int),
                self.player.vel.x == vel_after_x(g0.player, input, dt as int),
                self.player.vel.y == vel_after_y(g0.player, input, dt as int),
                self.player.pos.x == pos_after_x(g0.player, input, dt as int, w as int),
                self.player.pos.y == pos_after_y(g0.player, input, dt as int, h as int),
                self.player.cooldown == cooldown_after(g0.player, input, dt as int),
                self.player.alive == g0.player.alive,
                player_ok(self.player),
                self.asteroids == g0.asteroids,
                self.state == g0.state,
                self.score == g0.score,
            decreases self.bullets@.len() - i,
        {
            let mut b = self.bullets[i];
            b.update(dt, w, h);
            self.bullets[i] = b;
            i = i + 1;
        }
        let ghost b1 = self.bullets@;
        let mut j: usize = 0;
        while j < self.asteroids.len()
            invariant
                j <= self.asteroids@.len(),
                0 <= dt <= 10_000_000,
                0 < w <= 1_000_000_000,
                0 < h <= 1_000_000_000,
                forall|k: int|
                    0 <= k < self.asteroids@.len() ==> ast_ok(#[trigger] self.asteroids@[k]),
                self.asteroids@.len() == g0.asteroids@.len(),
                forall|k: int|
                    0 <= k < j ==> ast_stepped(
                        g0.asteroids@[k],
                        #[trigger] self.asteroids@[k],
                        dt as int,
                        w as int,
                        h as int,
                    ),
                forall|k: int|
                    j <= k < self.asteroids@.len() ==> #[trigger] self.asteroids@[k]
                        == g0.asteroids@[k],
                worth_sum(self.asteroids@) == worth_sum(g0.asteroids@),
                self.bullets@ == b1,
                self.player.rotation == rot_after(g0.player, input, dt as int),
                self.player.vel.x == vel_after_x(g0.player, input, dt as int),
                self.player.vel.y == vel_after_y(g0.player, input, dt as int),
                self.player.pos.x == pos_after_x(g0.player, input, dt as int, w as int),
                self.player.pos.y == pos_after_y(g0.player, input, dt as int, h as int),
                self.player.cooldown == cooldown_after(g0.player, input, dt as int),
                self.player.alive == g0.player.alive,
                player_ok(self.player),
                self.state == g0.state,
                self.score == g0.score,
            decreases self.asteroids@.len() - j,
        {
            let ghost pre = self.asteroids@;
            let mut a = self.asteroids[j];
            a.update(dt, w, h);
            proof {
                lemma_worth_sum_update(pre, j as int, a);
            }
            self.asteroids[j] = a;
            j = j + 1;
        }
        proof {
            if fires(g0.player, input, dt as int) {
                let f = b0[b0.len() - 1];
                assert(fired_bullet_spec(g0.player, input, dt as int, w as int, h as int, f)
                    && bullet_stepped(
                    f,
                    self.bullets@[self.bullets@.len() - 1],
                    dt as int,
                    w as int,
                    h as int,
                ));
            }
        }
    }

    /// The tail of a playing frame, after all movement and the
    /// bullet-asteroid pass: the player-asteroid pass (a hit freezes
    /// the frame right there in `GameOver`, nothing pruned), then
    /// cleanup and the victory check.
    #[verifier::rlimit(60)]
    fn settle_frame(&mut self)
        requires
            old(self).state == GameState::Playing,
            player_ok(old(self).player),
            forall|i: int|
                0 <= i < old(self).bullets@.len() ==> bullet_ok(#[trigger] old(self).bullets@[i]),
            forall|j: int|
                0 <= j < old(self).asteroids@.len() ==> ast_ok(#[trigger] old(self).asteroids@[j]),
            old(self).score + worth_sum(old(self).asteroids@) <= WAVE_WORTH,
        ensures
            game_ok(*final(self)),
            final(self).player.pos == old(self).player.pos,
            final(self).player.vel == old(self).player.vel,
            final(self).player.rotation == old(self).player.rotation,
            final(self).player.cooldown == old(self).player.cooldown,
            final(self).score == old(self).score,
            worth_sum(final(self).asteroids@) == worth_sum(old(self).asteroids@),
            final(self).bullets@.len() <= old(self).bullets@.len(),
            final(self).state == GameState::GameOver <==> old(self).player.alive && exists|j: int|
                0 <= j < final(self).asteroids@.len() && (#[trigger] final(self).asteroids@[j]).alive
                    && circles_overlap(
                    final(self).player.pos,
                    PLAYER_RADIUS as int,
                    final(self).asteroids@[j].pos,
                    radius_of(final(self).asteroids@[j].size),
                ),
            final(self).state == GameState::GameOver ==> !final(self).player.alive && final(self).bullets@ == old(self).bullets@ && final(self).asteroids@ == old(self).asteroids@,
            final(self).state != GameState::GameOver ==> final(self).player.alive == old(self).player.alive,
            final(self).state != GameState::GameOver ==> pruned_bullets(
                old(self).bullets@,
                final(self).bullets@,
            ) && pruned_asts(old(self).asteroids@, final(self).asteroids@),
            final(self).state != GameState::GameOver ==> (forall|i: int|
                0 <= i < final(self).bullets@.len() ==> (#[trigger] final(self).bullets@[i]).alive)
                && (forall|j: int|
                0 <= j < final(self).asteroids@.len() ==> (#[trigger] final(self).asteroids@[j]).alive),
            final(self).state != GameState::GameOver ==> final(self).state == (
            if final(self).asteroids@.len() == 0 {
                GameState::Victory
            } else {
                GameState::Playing
            }),
    {
        let ghost g0 = *self;
        let was_hit: bool = if self.player.alive {
            self.player_hit()
        } else {
            false
        };
        if was_hit {
            self.player.alive = false;
            self.state = GameState::GameOver;
            return ;
        }
        let ghost pre_prune = *self;
        let bm = prune_bullets(&mut self.bullets);
        let am = prune_asteroids(&mut self.asteroids);
        if self.asteroids.len() == 0 {
            self.state = GameState::Victory;
        }
        proof {
            reveal(pruned_bullets);
            reveal(pruned_asts);
            assert(prune_map_ok_bullets(pre_prune.bullets@, self.bullets@, bm@));
            assert(pruned_bullets(pre_prune.bullets@, self.bullets@));
            assert(prune_map_ok_asts(pre_prune.asteroids@, self.asteroids@, am@));
            assert(pruned_asts(pre_prune.asteroids@, self.asteroids@));
            assert forall|k: int| 0 <= k < self.asteroids@.len() implies ast_ok(
                #[trigger] self.asteroids@[k],
            ) && self.asteroids@[k].alive by {
                assert(self.asteroids@[k] == pre_prune.asteroids@[am@[k]]);
            }
            assert forall|k: int| 0 <= k < self.bullets@.len() implies bullet_ok(
                #[trigger] self.bullets@[k],
            ) && self.bullets@[k].alive by {
                assert(self.bullets@[k] == pre_prune.bullets@[bm@[k]]);
            }
            if g0.player.alive {
                assert forall|k: int|
                    0 <= k < self.asteroids@.len() implies !circles_overlap(
                    self.player.pos,
                    PLAYER_RADIUS as int,
                    (#[trigger] self.asteroids@[k]).pos,
                    radius_of(self.asteroids@[k].size),
                ) by {
                    assert(self.asteroids@[k] == pre_prune.asteroids@[am@[k]]);
                    assert(pre_prune.asteroids@[am@[k]].alive);
                }
            }
        }
    }

    /// One playing frame, after the frozen-state check: movement,
    /// the bullet-asteroid pass, then the frame's settlement.
    #[verifier::rlimit(60)]
    fn frame_playing(&mut self, input: InputFrame, dt: i64, w: i64, h: i64)
        requires
            old(self).state == GameState::Playing,
            game_ok(*old(self)),
            0 <= dt <= 10_000_000,
            0 < w <= 1_000_000_000,
            0 < h <= 1_000_000_000,
        ensures
            game_ok(*final(self)),
            final(self).player.rotation == rot_after(old(self).player, input, dt as int),
            final(self).player.vel.x == vel_after_x(old(self).player, input, dt as int),
            final(self).player.vel.y == vel_after_y(old(self).player, input, dt as int),
            final(self).player.pos.x == pos_after_x(old(self).player, input, dt as int, w as int),
            final(self).player.pos.y == pos_after_y(old(self).player, input, dt as int, h as int),
            final(self).player.cooldown == cooldown_after(old(self).player, input, dt as int),
            final(self).state == GameState::GameOver <==> old(self).player.alive && exists|j: int|
                0 <= j < final(self).asteroids@.len() && (#[trigger] final(self).asteroids@[j]).alive
                    && circles_overlap(
                    final(self).player.pos,
                    PLAYER_RADIUS as int,
                    final(self).asteroids@[j].pos,
                    radius_of(final(self).asteroids@[j].size),
                ),
            final(self).state == GameState::GameOver ==> !final(self).player.alive,
            final(self).state != GameState::GameOver ==> final(self).player.alive == old(self).player.alive,
            final(self).state != GameState::GameOver ==> (forall|i: int|
                0 <= i < final(self).bullets@.len() ==> (#[trigger] final(self).bullets@[i]).alive)
                && (forall|j: int|
                0 <= j < final(self).asteroids@.len() ==> (#[trigger] final(self).asteroids@[j]).alive),
            final(self).state != GameState::GameOver ==> final(self).state == (
            if final(self).asteroids@.len() == 0 {
                GameState::Victory
            } else {
                GameState::Playing
            }),
            final(self).score + worth_sum(final(self).asteroids@) == old(self).score + worth_sum(
                old(self).asteroids@,
            ),
            final(self).score >= old(self).score,
            final(self).bullets@.len() <= old(self).bullets@.len() + 1,
            exists|mid: Game, resolved: Game|
                {
                    &&& moved_rel(*old(self), mid, input, dt as int, w as int, h as int)
                    &&& #[trigger] pass_rel(mid, resolved)
                    &&& settled_rel(resolved, *final(self))
                },
    {
        let ghost g0 = *self;
        self.move_entities(input, dt, w, h);
        let ghost mid = *self;
        self.resolve_hits();
        let ghost resolved = *self;
        self.settle_frame();
        proof {
            assert(moved_rel(g0, mid, input, dt as int, w as int, h as int)) by {
                reveal(moved_rel);
            }
            assert(pass_rel(mid, resolved)) by {
                reveal(pass_rel);
            }
            assert(settled_rel(resolved, *self)) by {
                reveal(settled_rel);
            }
        }
    }

    /// One frame. In a terminal state only the restart edge does
    /// anything: it clears the bullets, zeroes the score, respawns
    /// the wave clear of the arena center and resets the player in
    /// place. When playing, the frame runs in the fixed order:
    /// movement, the bullet-asteroid pass, the player-asteroid pass,
    /// cleanup, victory check.
    pub fn update(&mut self, input: InputFrame, dt: i64, w: i64, h: i64)
        requires
            game_ok(*old(self)),
            0 <= dt <= 10_000_000,
            0 < w <= 1_000_000_000,
            0 < h <= 1_000_000_000,
        ensures
            game_ok(*final(self)),
            old(self).state != GameState::Playing && !input.restart ==> *final(self) == *old(self),
            old(self).state != GameState::Playing && input.restart ==> restarted(
                *old(self),
                *final(self),
                w as int,
                h as int,
            ),
            old(self).state == GameState::Playing ==> {
                &&& final(self).player.rotation == rot_after(old(self).player, input, dt as int)
                &&& final(self).player.vel.x == vel_after_x(old(self).player, input, dt as int)
                &&& final(self).player.vel.y == vel_after_y(old(self).player, input, dt as int)
                &&& final(self).player.pos.x == pos_after_x(old(self).player, input, dt as int, w as int)
                &&& final(self).player.pos.y == pos_after_y(old(self).player, input, dt as int, h as int)
                &&& final(self).player.cooldown == cooldown_after(old(self).player, input, dt as int)
                &&& (final(self).state == GameState::GameOver <==> old(self).player.alive
                    && exists|j: int|
                    0 <= j < final(self).asteroids@.len() && (#[trigger] final(self).asteroids@[j]).alive
                        && circles_overlap(
                        final(self).player.pos,
                        PLAYER_RADIUS as int,
                        final(self).asteroids@[j].pos,
                        radius_of(final(self).asteroids@[j].size),
                    ))
                &&& (final(self).state == GameState::GameOver ==> !final(self).player.alive)
                &&& (final(self).state != GameState::GameOver ==> final(self).player.alive == old(self).player.alive)
                &&& (final(self).state != GameState::GameOver ==> (forall|i: int|
                    0 <= i < final(self).bullets@.len() ==> (#[trigger] final(self).bullets@[i]).alive)
                    && (forall|j: int|
                    0 <= j < final(self).asteroids@.len() ==> (#[trigger] final(self).asteroids@[j]).alive))
                &&& (final(self).state != GameState::GameOver ==> final(self).state == (
                if final(self).asteroids@.len() == 0 {
                    GameState::Victory
                } else {
                    GameState::Playing
                }))
                &&& final(self).score + worth_sum(final(self).asteroids@) == old(self).score
                    + worth_sum(old(self).asteroids@)
                &&& final(self).score >= old(self).score
                &&& final(self).bullets@.len() <= old(self).bullets@.len() + 1
                &&& exists|mid: Game, resolved: Game|
                    {
                        &&& moved_rel(*old(self), mid, input, dt as int, w as int, h as int)
                        &&& #[trigger] pass_rel(mid, resolved)
                        &&& settled_rel(resolved, *final(self))
                    }
            },
    {
        if self.state != GameState::Playing {
            if input.restart {
                let wave = match Self::spawn_asteroids(
                    INITIAL_ASTEROIDS,
                    Vec2i { x: 640_000, y: 360_000 },
                    w,
                    h,
                ) {
                    Some(wave) => wave,
                    None => fallback_wave(),
                };
                proof {
                    assert(worth_sum(wave@) == 2600);
                    assert((0 - 640_000) * (0 - 640_000) + (0 - 360_000) * (0 - 360_000)
                        > 22_500_000_000) by (nonlinear_arith);
                    assert(dist_sq(Vec2i { x: 0, y: 0 }, Vec2i { x: 640_000, y: 360_000 })
                        > SAFE_RADIUS_SQ);
                }
                self.bullets = Vec::new();
                self.score = 0;
                self.asteroids = wave;
                self.player.pos = Vec2i { x: 640_000, y: 360_000 };
                self.player.vel = Vec2i { x: 0, y: 0 };
                self.player.rotation = 0;
                self.player.alive = true;
                self.state = GameState::Playing;
            }
            return ;
        }
        self.frame_playing(input, dt, w, h);
    }
}

/// The state a successful restart leaves behind: score and bullets
/// cleared, the player reset in place at the arena center (only the
/// fire cooldown survives), the phase back to `Playing`, and a fresh
/// wave of big asteroids all placed clear of the center.
pub open spec fn restarted(g0: Game, g1: Game, w: int, h: int) -> bool {
    &&& g1.state == GameState::Playing
    &&& g1.score == 0
    &&& g1.bullets@.len() == 0
    &&& g1.player == (Player {
        pos: Vec2i { x: 640_000, y: 360_000 },
        vel: Vec2i { x: 0, y: 0 },
        rotation: 0,
        cooldown: g0.player.cooldown,
        alive: true,
    })
    &&& g1.asteroids@.len() == INITIAL_ASTEROIDS
    &&& forall|j: int|
        0 <= j < g1.asteroids@.len() ==> {
            &&& (#[trigger] g1.asteroids@[j]).alive
            &&& g1.asteroids@[j].size == AsteroidSize::Big
            &&& ast_ok(g1.asteroids@[j])
            &&& 0 <= g1.asteroids@[j].pos.x < w
            &&& 0 <= g1.asteroids@[j].pos.y < h
            &&& dist_sq(g1.asteroids@[j].pos, Vec2i { x: 640_000, y: 360_000 }) > SAFE_RADIUS_SQ
        }
}

} // verus!
