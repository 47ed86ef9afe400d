use asteroids_core::asteroid::{Asteroid, AsteroidSize};
use asteroids_core::bullet::Bullet;
use asteroids_core::game::{Game, GameState};
use asteroids_core::geom::{cos_mr, dist_sq_ex, facing, hits, isqrt64, sin_mr, wrap_coord, Vec2i};
use asteroids_core::player::{InputFrame, Player};
use asteroids_core::rng::{rand_below, rand_in, rand_unit, seed_random};

const W: i64 = 1_280_000;
const H: i64 = 720_000;
const DT: i64 = 16_667;

fn idle() -> InputFrame {
    InputFrame { turn_left: false, turn_right: false, thrust: false, fire: false, restart: false }
}

fn firing() -> InputFrame {
    InputFrame { turn_left: false, turn_right: false, thrust: false, fire: true, restart: false }
}

fn restarting() -> InputFrame {
    InputFrame { turn_left: false, turn_right: false, thrust: false, fire: false, restart: true }
}

fn still_asteroid(x: i64, y: i64, size: AsteroidSize) -> Asteroid {
    Asteroid { pos: Vec2i { x, y }, vel: Vec2i { x: 0, y: 0 }, rotation: 0, rot_speed: 0, size, alive: true }
}

fn still_bullet(x: i64, y: i64) -> Bullet {
    Bullet { pos: Vec2i { x, y }, vel: Vec2i { x: 0, y: 0 }, lifetime: 1_000_000, alive: true }
}

fn center_player() -> Player {
    Player {
        pos: Vec2i { x: 640_000, y: 360_000 },
        vel: Vec2i { x: 0, y: 0 },
        rotation: 0,
        cooldown: 0,
        alive: true,
    }
}

fn playing_game(asteroids: Vec<Asteroid>, bullets: Vec<Bullet>) -> Game {
    Game { player: center_player(), bullets, asteroids, state: GameState::Playing, score: 0 }
}

#[test]
fn wrap_sets_edges() {
    // Below zero re-enters just inside the far edge; at or past the
    // far edge re-enters at zero: always strictly inside the arena.
    assert_eq!(wrap_coord(-1, H), H - 1);
    assert_eq!(wrap_coord(H + 1, H), 0);
    assert_eq!(wrap_coord(5, H), 5);
    assert_eq!(wrap_coord(0, H), 0);
    assert_eq!(wrap_coord(H, H), 0);
}

#[test]
fn exactly_touching_circles_do_not_collide() {
    let a = Vec2i { x: 0, y: 0 };
    let b = Vec2i { x: 60_000, y: 0 };
    // bullet radius 4000 + big asteroid radius 56000 = 60000
    assert!(!hits(a, 4_000, b, 56_000));
}

#[test]
fn epsilon_overlapping_circles_collide() {
    let a = Vec2i { x: 0, y: 0 };
    let b = Vec2i { x: 59_999, y: 0 };
    assert!(hits(a, 4_000, b, 56_000));
    assert!(hits(b, 56_000, a, 4_000));
}

#[test]
fn squared_distance_is_exact() {
    let a = Vec2i { x: 3, y: 4 };
    let b = Vec2i { x: 0, y: 0 };
    assert_eq!(dist_sq_ex(a, b), 25);
}

#[test]
fn integer_square_root_values() {
    assert_eq!(isqrt64(0), 0);
    assert_eq!(isqrt64(1), 1);
    assert_eq!(isqrt64(2), 1);
    assert_eq!(isqrt64(144), 12);
    assert_eq!(isqrt64(1_000_000_000_000), 1_000_000);
    assert_eq!(isqrt64(999_999_999_999), 999_999);
}

#[test]
fn sine_table_anchors() {
    assert_eq!(sin_mr(0), 0);
    assert_eq!(sin_mr(1571), 1000);
    assert_eq!(sin_mr(3142), 0);
    assert_eq!(sin_mr(4713), -1000);
    assert_eq!(cos_mr(0), 1000);
    assert_eq!(cos_mr(3142), -1000);
    let up = facing(0);
    assert_eq!((up.x, up.y), (0, -1000));
}

#[test]
fn size_tier_table() {
    assert_eq!(AsteroidSize::Big.radius(), 56_000);
    assert_eq!(AsteroidSize::Medium.radius(), 32_000);
    assert_eq!(AsteroidSize::Small.radius(), 16_000);
    assert_eq!(AsteroidSize::Big.draw_size(), 128_000);
    assert_eq!(AsteroidSize::Medium.draw_size(), 64_000);
    assert_eq!(AsteroidSize::Small.draw_size(), 32_000);
    assert_eq!(AsteroidSize::Big.speed(), 60_000);
    assert_eq!(AsteroidSize::Medium.speed(), 100_000);
    assert_eq!(AsteroidSize::Small.speed(), 160_000);
    assert_eq!(AsteroidSize::Big.score(), 20);
    assert_eq!(AsteroidSize::Medium.score(), 50);
    assert_eq!(AsteroidSize::Small.score(), 100);
    assert_eq!(AsteroidSize::Big.split(), Some(AsteroidSize::Medium));
    assert_eq!(AsteroidSize::Medium.split(), Some(AsteroidSize::Small));
    assert_eq!(AsteroidSize::Small.split(), None);
}

#[test]
fn split_fan_out() {
    seed_random(11);
    let big = still_asteroid(100_000, 100_000, AsteroidSize::Big);
    let children = big.split();
    assert_eq!(children.len(), 2);
    for c in &children {
        assert_eq!(c.size, AsteroidSize::Medium);
        assert_eq!((c.pos.x, c.pos.y), (100_000, 100_000));
        assert!(c.alive);
    }
    let medium = still_asteroid(7_000, 9_000, AsteroidSize::Medium);
    let children = medium.split();
    assert_eq!(children.len(), 2);
    for c in &children {
        assert_eq!(c.size, AsteroidSize::Small);
        assert_eq!((c.pos.x, c.pos.y), (7_000, 9_000));
    }
    let small = still_asteroid(1, 2, AsteroidSize::Small);
    assert_eq!(small.split().len(), 0);
}

#[test]
fn new_asteroid_speed_within_tier() {
    seed_random(3);
    for _ in 0..50 {
        let a = Asteroid::new(Vec2i { x: 5_000, y: 6_000 }, AsteroidSize::Small);
        assert!(a.alive);
        assert_eq!(a.size, AsteroidSize::Small);
        assert_eq!((a.pos.x, a.pos.y), (5_000, 6_000));
        assert!(a.vel.x.abs() <= 160_000 && a.vel.y.abs() <= 160_000);
        // the drift speed magnitude stays within one percent of the tier speed
        let speed_sq = 160_000i64 * 160_000;
        let vel_sq = a.vel.x * a.vel.x + a.vel.y * a.vel.y;
        assert!(990_000 * speed_sq <= 1_000_000 * vel_sq);
        assert!(1_000_000 * vel_sq <= 1_004_004 * speed_sq);
        assert!(a.rotation >= 0 && a.rotation < 6284);
        assert!(a.rot_speed >= -2000 && a.rot_speed <= 2000);
    }
}

#[test]
fn bullet_creation_and_expiry() {
    let b = Bullet::new(Vec2i { x: 640_000, y: 328_000 }, Vec2i { x: 0, y: -1000 });
    assert_eq!((b.vel.x, b.vel.y), (0, -600_000));
    assert_eq!(b.lifetime, 1_500_000);
    assert!(b.alive);

    let mut flying = b;
    flying.update(DT, W, H);
    assert!(flying.alive);
    assert_eq!(flying.lifetime, 1_500_000 - DT);
    // 600000 mpx/s over 16667 us is 10000 mpx travelled up
    assert_eq!((flying.pos.x, flying.pos.y), (640_000, 318_000));

    let mut expiring = b;
    expiring.update(1_500_000, W, H);
    assert!(!expiring.alive);
    assert_eq!(expiring.lifetime, 0);
    // an expired bullet is not moved this frame
    assert_eq!((expiring.pos.x, expiring.pos.y), (640_000, 328_000));
}

#[test]
fn bullet_wraps_instead_of_dying_at_edge() {
    let mut b = still_bullet(640_000, 5_000);
    b.vel = Vec2i { x: 0, y: -600_000 };
    b.update(DT, W, H);
    // 5000 - 10000 falls below zero and re-enters just inside the
    // bottom edge
    assert!(b.alive);
    assert_eq!(b.pos.y, H - 1);
}

#[test]
fn player_turns_at_fixed_rate() {
    let mut p = center_player();
    let input = InputFrame { turn_right: true, ..idle() };
    p.update(input, 1_000_000, W, H);
    assert_eq!(p.rotation, 3000);
    let mut q = center_player();
    let input = InputFrame { turn_left: true, ..idle() };
    q.update(input, 1_000_000, W, H);
    assert_eq!(q.rotation, 6284 - 3000);
}

#[test]
fn player_drag_and_integration() {
    let mut p = center_player();
    p.vel = Vec2i { x: 100_000, y: 0 };
    p.update(idle(), DT, W, H);
    // drag factor: 1e6 - (6 * 16667) / 5 = 980000 millionths
    assert_eq!(p.vel.x, 98_000);
    assert_eq!(p.vel.y, 0);
    // 98000 mpx/s over 16667 us is 1633 mpx
    assert_eq!(p.pos.x, 641_633);
    assert_eq!(p.pos.y, 360_000);
}

#[test]
fn player_speed_clamp() {
    let mut p = center_player();
    p.vel = Vec2i { x: 500_000, y: 0 };
    p.update(idle(), 0, W, H);
    assert_eq!(p.vel.x, 400_000);
    assert_eq!(p.vel.y, 0);
}

#[test]
fn player_fire_rate_limit() {
    let mut p = center_player();
    let shot = p.update(firing(), 0, W, H);
    // facing up: spawn 32 px ahead of the ship
    assert_eq!(shot, Some(Vec2i { x: 640_000, y: 328_000 }));
    assert_eq!(p.cooldown, 250_000);
    // a second press during cooldown is ignored
    assert_eq!(p.update(firing(), 0, W, H), None);
    // after the reload time the ship fires again
    assert_eq!(p.update(firing(), 250_000, W, H), Some(Vec2i { x: 640_000, y: 328_000 }));
    // holding fire without a press edge would still fire only once per edge:
    // the edge semantics live in the input layer; the engine sees one flag.
    assert_eq!(p.update(idle(), 500_000, W, H), None);
}

#[test]
fn fresh_game_shape() {
    seed_random(7);
    let g = Game::new(W, H).expect("spawn placement should succeed");
    assert_eq!(g.state, GameState::Playing);
    assert_eq!(g.score, 0);
    assert_eq!(g.bullets.len(), 0);
    assert_eq!(g.asteroids.len(), 5);
    for a in &g.asteroids {
        assert!(a.alive);
        assert_eq!(a.size, AsteroidSize::Big);
    }
}

#[test]
fn spawn_clearance_over_many_seeds() {
    let avoid = Vec2i { x: 640_000, y: 360_000 };
    for seed in 0..100u64 {
        seed_random(seed);
        let wave = Game::spawn_asteroids(5, avoid, W, H).expect("placement");
        assert_eq!(wave.len(), 5);
        for a in &wave {
            let dx = a.pos.x - avoid.x;
            let dy = a.pos.y - avoid.y;
            assert!(dx * dx + dy * dy > 150_000i64 * 150_000);
            assert!(a.pos.x >= 0 && a.pos.x < W);
            assert!(a.pos.y >= 0 && a.pos.y < H);
        }
    }
}

#[test]
fn seeded_games_are_reproducible() {
    seed_random(42);
    let g1 = Game::new(W, H).unwrap();
    seed_random(42);
    let g2 = Game::new(W, H).unwrap();
    assert_eq!(g1.asteroids, g2.asteroids);
}

#[test]
fn score_accumulates_big_medium_small() {
    seed_random(5);
    let mut g = playing_game(
        vec![
            still_asteroid(100_000, 100_000, AsteroidSize::Big),
            still_asteroid(300_000, 100_000, AsteroidSize::Medium),
            still_asteroid(500_000, 100_000, AsteroidSize::Small),
        ],
        vec![still_bullet(100_000, 100_000)],
    );
    g.update(idle(), 0, W, H);
    assert_eq!(g.score, 20);
    assert_eq!(g.state, GameState::Playing);
    assert_eq!(g.bullets.len(), 0);
    // the Big died and left two Medium children at its position
    assert_eq!(g.asteroids.len(), 4);

    g.bullets.push(still_bullet(300_000, 100_000));
    g.update(idle(), 0, W, H);
    assert_eq!(g.score, 70);

    g.bullets.push(still_bullet(500_000, 100_000));
    g.update(idle(), 0, W, H);
    assert_eq!(g.score, 170);
}

#[test]
fn one_bullet_credits_at_most_one_asteroid() {
    seed_random(9);
    let mut g = playing_game(
        vec![
            still_asteroid(130_000, 100_000, AsteroidSize::Big),
            still_asteroid(70_000, 100_000, AsteroidSize::Big),
        ],
        vec![still_bullet(100_000, 100_000)],
    );
    g.update(idle(), 0, W, H);
    // exactly one of the two overlapping asteroids died; the bullet is spent
    assert_eq!(g.score, 20);
    assert_eq!(g.bullets.len(), 0);
    let big_left = g.asteroids.iter().filter(|a| a.size == AsteroidSize::Big).count();
    assert_eq!(big_left, 1);
    assert_eq!(g.asteroids.len(), 3);
    assert_eq!(g.state, GameState::Playing);
}

#[test]
fn first_scanned_bullet_takes_the_kill() {
    seed_random(17);
    let mut g = playing_game(
        vec![still_asteroid(100_000, 100_000, AsteroidSize::Medium)],
        vec![still_bullet(100_000, 100_000), still_bullet(101_000, 100_000)],
    );
    g.update(idle(), 0, W, H);
    // the asteroid died and was scored once; the first-scanned bullet
    // was spent and the second survives the frame
    assert_eq!(g.score, 50);
    assert_eq!(g.bullets.len(), 1);
    assert_eq!(g.bullets[0].pos.x, 101_000);
    assert_eq!(g.asteroids.len(), 2);
    assert_eq!(g.state, GameState::Playing);
}

#[test]
fn player_overlap_freezes_frame_in_game_over() {
    let mut dead_marker = still_asteroid(100_000, 600_000, AsteroidSize::Small);
    dead_marker.alive = false;
    let mut g = playing_game(
        vec![still_asteroid(660_000, 360_000, AsteroidSize::Big), dead_marker],
        vec![still_bullet(100_000, 100_000)],
    );
    g.update(idle(), 0, W, H);
    assert_eq!(g.state, GameState::GameOver);
    assert!(!g.player.alive);
    // the dying frame runs no cleanup: the dead asteroid and the live
    // bullet both remain, and no victory check runs
    assert_eq!(g.asteroids.len(), 2);
    assert!(!g.asteroids[1].alive);
    assert_eq!(g.bullets.len(), 1);
    assert_eq!(g.score, 0);
}

#[test]
fn terminal_state_is_frozen_without_restart() {
    let mut g = playing_game(vec![still_asteroid(660_000, 360_000, AsteroidSize::Big)], vec![]);
    g.update(idle(), 0, W, H);
    assert_eq!(g.state, GameState::GameOver);
    let before_asteroids = g.asteroids.clone();
    let before_score = g.score;
    g.update(firing(), DT, W, H);
    assert_eq!(g.state, GameState::GameOver);
    assert_eq!(g.asteroids, before_asteroids);
    assert_eq!(g.score, before_score);
}

#[test]
fn clearing_the_arena_wins() {
    seed_random(13);
    let mut g = playing_game(
        vec![still_asteroid(100_000, 100_000, AsteroidSize::Small)],
        vec![still_bullet(100_000, 100_000)],
    );
    g.update(idle(), 0, W, H);
    assert_eq!(g.state, GameState::Victory);
    assert_eq!(g.score, 100);
    assert_eq!(g.asteroids.len(), 0);
    assert_eq!(g.bullets.len(), 0);
    assert!(g.player.alive);
}

#[test]
fn restart_resets_everything_but_respects_cooldown() {
    seed_random(21);
    let mut g = playing_game(vec![still_asteroid(660_000, 360_000, AsteroidSize::Big)], vec![]);
    g.player.cooldown = 100_000;
    g.score = 0;
    g.update(idle(), 0, W, H);
    assert_eq!(g.state, GameState::GameOver);
    g.score = 70; // pretend some score had been taken before dying
    g.update(restarting(), DT, W, H);
    assert_eq!(g.state, GameState::Playing);
    assert_eq!(g.score, 0);
    assert_eq!(g.bullets.len(), 0);
    assert_eq!(g.asteroids.len(), 5);
    for a in &g.asteroids {
        assert!(a.alive);
        assert_eq!(a.size, AsteroidSize::Big);
        let dx = a.pos.x - 640_000;
        let dy = a.pos.y - 360_000;
        assert!(dx * dx + dy * dy > 150_000i64 * 150_000);
    }
    assert!(g.player.alive);
    assert_eq!((g.player.pos.x, g.player.pos.y), (640_000, 360_000));
    assert_eq!((g.player.vel.x, g.player.vel.y), (0, 0));
    assert_eq!(g.player.rotation, 0);
}

#[test]
fn fired_bullet_lives_out_its_lifetime_and_vanishes() {
    // A fresh wave far from the bullet's flight path up the center
    // column: nothing will be hit.
    let mut g = playing_game(
        vec![
            still_asteroid(100_000, 100_000, AsteroidSize::Big),
            still_asteroid(100_000, 300_000, AsteroidSize::Big),
            still_asteroid(100_000, 500_000, AsteroidSize::Big),
            still_asteroid(300_000, 100_000, AsteroidSize::Big),
            still_asteroid(1_100_000, 100_000, AsteroidSize::Big),
        ],
        vec![],
    );
    g.update(firing(), 0, W, H);
    assert_eq!(g.bullets.len(), 1);
    assert_eq!(g.bullets[0].lifetime, 1_500_000);
    let mut frames = 0;
    while !g.bullets.is_empty() {
        g.update(idle(), DT, W, H);
        frames += 1;
        assert!(frames < 120, "bullet should expire within its lifetime");
    }
    // lifetime of 1.5 s at 16.667 ms per frame: the 90th frame kills it
    assert_eq!(frames, 90);
    assert_eq!(g.score, 0);
    assert_eq!(g.asteroids.len(), 5);
    assert_eq!(g.state, GameState::Playing);
    assert!(g.player.alive);
}

#[test]
fn random_draws_respect_their_ranges() {
    seed_random(1);
    for _ in 0..200 {
        assert!(rand_below(10) < 10);
        let r = rand_in(-5, 5);
        assert!(r >= -5 && r <= 5);
        let u = rand_unit();
        assert!(u.x.abs() <= 1000 && u.y.abs() <= 1000);
        // a heading has squared length within half a percent of unity
        let len_sq = u.x * u.x + u.y * u.y;
        assert!(995_000 <= len_sq && len_sq <= 1_004_004);
    }
}
