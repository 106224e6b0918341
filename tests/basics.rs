use spin_snowball::server::{next_loop_action, LoopAction, TICK_NANOS};
use spin_snowball::geom::{circle_intersects_circle, circle_intersects_rect, isqrt, Vec2};
use spin_snowball::mask::{matches_ball, matches_player, matches_snowball, CollisionMaskTag, Team};
use spin_snowball::model::{Body, PhysicsSettings};
use spin_snowball::outbox::Outbox;
use spin_snowball::physics::resolve_circle_circle;
use spin_snowball::shot::{recoil, shot_speed, unit_dir};
use spin_snowball::text::default_nick;
use spin_snowball::timer::{MatchTimer, NANOS_PER_SEC};

#[test]
fn mask_membership() {
    let mask = vec![CollisionMaskTag::Ball, CollisionMaskTag::PlayerTeam2];
    assert!(matches_ball(&mask));
    assert!(!matches_snowball(&mask));
    assert!(matches_player(&mask, Team::Team2));
    assert!(!matches_player(&mask, Team::Team1));
    assert!(!matches_ball(&Vec::new()));
}

#[test]
fn timer_counts_only_running_time() {
    let mut t = MatchTimer::new();
    assert_eq!(t.elapsed(5 * NANOS_PER_SEC), 0);
    t.start(NANOS_PER_SEC);
    assert_eq!(t.elapsed(3 * NANOS_PER_SEC), 2 * NANOS_PER_SEC);
    t.pause(4 * NANOS_PER_SEC);
    assert_eq!(t.elapsed(100 * NANOS_PER_SEC), 3 * NANOS_PER_SEC);
    t.pause(50 * NANOS_PER_SEC);
    assert_eq!(t.elapsed(100 * NANOS_PER_SEC), 3 * NANOS_PER_SEC);
    t.start(10 * NANOS_PER_SEC);
    t.start(20 * NANOS_PER_SEC);
    assert_eq!(t.elapsed_secs(12 * NANOS_PER_SEC), 5);
    t.reset();
    assert_eq!(t.elapsed(30 * NANOS_PER_SEC), 0);
    assert!(!t.running);
}

#[test]
fn integer_square_root() {
    assert_eq!(isqrt(0), 0);
    assert_eq!(isqrt(15), 3);
    assert_eq!(isqrt(16), 4);
    assert_eq!(isqrt(1_000_000), 1000);
    assert_eq!(isqrt(u128::MAX), u64::MAX);
}

#[test]
fn overlap_tests() {
    assert!(circle_intersects_circle(0, 0, 10, 15, 0, 6));
    assert!(!circle_intersects_circle(0, 0, 10, 16, 0, 6));
    assert!(circle_intersects_rect(-5, 5, 6, 0, 0, 10, 10));
    assert!(!circle_intersects_rect(-6, 5, 6, 0, 0, 10, 10));
    assert!(circle_intersects_rect(5, 5, 1, 0, 0, 10, 10));
}

fn body(x: i64, y: i64, vx: i64, vy: i64) -> Body {
    Body { pos: Vec2 { x, y }, vel: Vec2 { x: vx, y: vy } }
}

#[test]
fn heavier_body_moves_less() {
    // Centers 30 apart, radii 20 each: 10 of penetration.
    let a = body(0, 0, 0, 0);
    let b = body(30_000, 0, 0, 0);
    let (a2, b2) = resolve_circle_circle(a, b, 20_000, 3000, 20_000, 1000, 1000);
    assert_eq!(a2.pos.x, -2_500);
    assert_eq!(b2.pos.x, 37_500);
    assert_eq!(b2.pos.x - a2.pos.x, 40_000);
    assert_eq!(a2.vel, Vec2 { x: 0, y: 0 });
}

#[test]
fn converging_bodies_bounce() {
    let a = body(0, 0, 1000, 0);
    let b = body(30_000, 0, -1000, 0);
    let (a2, b2) = resolve_circle_circle(a, b, 20_000, 1000, 20_000, 1000, 1000);
    assert_eq!(a2.vel.x, -1000);
    assert_eq!(b2.vel.x, 1000);
    assert_eq!(a2.pos.x, -5_000);
    assert_eq!(b2.pos.x, 35_000);
}

#[test]
fn separate_bodies_untouched() {
    let a = body(0, 0, 5, 5);
    let b = body(50_000, 0, -5, 0);
    let (a2, b2) = resolve_circle_circle(a, b, 20_000, 1000, 20_000, 1000, 900);
    assert_eq!(a2, a);
    assert_eq!(b2, b);
}

#[test]
fn facing_directions() {
    assert_eq!(unit_dir(-90), (0, -1000));
    assert_eq!(unit_dir(0), (1000, 0));
    assert_eq!(unit_dir(90), (0, 1000));
    assert_eq!(unit_dir(180), (-1000, 0));
    assert_eq!(unit_dir(360), (1000, 0));
    assert_eq!(unit_dir(45), (707, 707));
    assert_eq!(unit_dir(-30), (866, -500));
}

#[test]
fn charge_is_clamped() {
    assert_eq!(shot_speed(0), 370_000);
    assert_eq!(shot_speed(30), 650_000);
    assert_eq!(shot_speed(60), 1_000_000);
    assert_eq!(shot_speed(600), 1_000_000);
    let p = PhysicsSettings::default();
    assert_eq!(recoil(0, &p), 650);
    assert_eq!(recoil(60, &p), 1100);
    assert_eq!(recoil(6000, &p), 1100);
}

#[test]
fn outbox_keeps_only_latest_world() {
    let mut o: Outbox<String> = Outbox::new();
    o.publish_world("w1".to_string());
    o.push_event("map".to_string());
    o.publish_world("w2".to_string());
    o.push_event("pong".to_string());
    assert_eq!(o.drain(), vec!["map".to_string(), "pong".to_string(), "w2".to_string()]);
    assert!(o.drain().is_empty());
}

#[test]
fn default_nick_counts() {
    assert_eq!(default_nick(1), "Player 1");
    assert_eq!(default_nick(42), "Player 42");
    assert_eq!(default_nick(0), "Player 0");
}

#[test]
fn loop_steps_once_when_due() {
    assert_eq!(next_loop_action(0), LoopAction::Sleep { nanos: TICK_NANOS });
    assert_eq!(next_loop_action(6_666_667), LoopAction::Sleep { nanos: 10_000_000 });
    assert_eq!(next_loop_action(TICK_NANOS), LoopAction::Step);
    assert_eq!(next_loop_action(10 * TICK_NANOS), LoopAction::Step);
}
