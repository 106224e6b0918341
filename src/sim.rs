use vstd::prelude::*;

use crate::collide::lim;
use crate::geom::{clamp, in_limit, div_toward_zero, div_tz, lemma_mul_abs_le, limit, Vec2, LIMIT, PERMILLE};
use crate::model::{Body, GameMap, PlayerStatus};
use crate::physics::lemma_div_tz_abs_le;
use crate::world::{ids_unique, player_ok, Ball, GameState, Player, Snowball};

verus! {

/// Simulation steps per second.
pub const TICK_HZ: i64 = 60;

/// Degrees turned per tick while a rotation intent is held (180 per second).
pub const TURN_PER_TICK: i64 = 3;

/// Velocity after one tick of friction: `friction_per_frame` thousandths of
/// it remain (the decay is configured per 60 Hz frame, which is one tick).
pub open spec fn decay(v: int, friction: int) -> int {
    div_tz(v * friction, PERMILLE as int)
}

/// Rotation after one tick of the held intents, wrapped into `[-360, 360]`.
pub open spec fn turned(rot: int, left: bool, right: bool) -> int {
    let a = if left {
        rot - TURN_PER_TICK
    } else {
        rot
    };
    let b = if right {
        a + TURN_PER_TICK
    } else {
        a
    };
    if b > 360 {
        b - 360
    } else if b < -360 {
        b + 360
    } else {
        b
    }
}

/// Charge ticks after one tick: one more for each held rotation intent.
pub open spec fn charged(spin: u32, left: bool, right: bool) -> u32 {
    let a = if left && spin < u32::MAX {
        (spin + 1) as u32
    } else {
        spin
    };
    if right && a < u32::MAX {
        (a + 1) as u32
    } else {
        a
    }
}

/// A playing player after one tick of motion: turned by its intents,
/// charged while turning, moved by its velocity, slowed by friction and kept
/// within `[0, width] x [0, height]`. Spectators are not on the field and do
/// not move.
pub open spec fn moved_player(p: Player, map: GameMap) -> Player {
    if p.status is Playing {
        let v = p.body.vel;
        let pos = Vec2 {
            x: clamp(p.body.pos.x + div_tz(v.x as int, TICK_HZ as int), 0, map.width as int) as i64,
            y: clamp(p.body.pos.y + div_tz(v.y as int, TICK_HZ as int), 0, map.height as int) as i64,
        };
        let vel = Vec2 {
            x: decay(v.x as int, map.physics.friction_per_frame as int) as i64,
            y: decay(v.y as int, map.physics.friction_per_frame as int) as i64,
        };
        Player {
            rot_deg: turned(p.rot_deg as int, p.rotating_left, p.rotating_right) as i64,
            spin_ticks: charged(p.spin_ticks, p.rotating_left, p.rotating_right),
            body: Body { pos, vel },
            ..p
        }
    } else {
        p
    }
}

/// A body moved by its velocity over one tick, without friction or bounds
/// other than the kinematic one.
pub open spec fn drifted(b: Body) -> Body {
    Body {
        pos: Vec2 {
            x: lim(b.pos.x + div_tz(b.vel.x as int, TICK_HZ as int)),
            y: lim(b.pos.y + div_tz(b.vel.y as int, TICK_HZ as int)),
        },
        vel: b.vel,
    }
}

/// The ball after one tick: moved, slowed by friction, and kept at least its
/// radius inside the map.
pub open spec fn moved_ball(b: Body, map: GameMap) -> Body {
    let r = map.physics.ball_radius as int;
    Body {
        pos: Vec2 {
            x: clamp(b.pos.x + div_tz(b.vel.x as int, TICK_HZ as int), r, map.width - r) as i64,
            y: clamp(b.pos.y + div_tz(b.vel.y as int, TICK_HZ as int), r, map.height - r) as i64,
        },
        vel: Vec2 {
            x: decay(b.vel.x as int, map.physics.friction_per_frame as int) as i64,
            y: decay(b.vel.y as int, map.physics.friction_per_frame as int) as i64,
        },
    }
}

fn step_axis(p: i64, v: i64, lo: i64, hi: i64) -> (r: i64)
    requires
        in_limit(p as int),
        in_limit(v as int),
        lo <= hi,
    ensures
        r == clamp(p + div_tz(v as int, TICK_HZ as int), lo as int, hi as int),
{
    proof {
        lemma_div_tz_abs_le(v as int, TICK_HZ as int);
    }
    let np: i128 = p as i128 + div_toward_zero(v as i128, TICK_HZ as i128);
    if np < lo as i128 {
        lo
    } else if np > hi as i128 {
        hi
    } else {
        np as i64
    }
}

fn decay_axis(v: i64, friction: i64) -> (r: i64)
    requires
        in_limit(v as int),
        0 <= friction <= PERMILLE,
    ensures
        r == decay(v as int, friction as int),
        in_limit(r as int),
{
    proof {
        lemma_mul_abs_le(v as int, friction as int, LIMIT as int, PERMILLE as int);
        lemma_div_tz_abs_le(v * friction, PERMILLE as int);
        assert((v * friction) / PERMILLE as int <= LIMIT || v * friction < 0) by (nonlinear_arith)
            requires
                v * friction <= LIMIT * PERMILLE,
        ;
        assert(-(v * friction) / PERMILLE as int <= LIMIT || v * friction >= 0) by (nonlinear_arith)
            requires
                -(v * friction) <= LIMIT * PERMILLE,
        ;
    }
    div_toward_zero(v as i128 * friction as i128, PERMILLE as i128) as i64
}

/// `b` is `a` after one tick of motion.
pub open spec fn moved_post(a: GameState, b: GameState) -> bool {
    &&& (b.players@.len() == a.players@.len())
    &&& (forall|i: int| 0 <= i < b.players@.len() ==> #[trigger] b.players@[i] == moved_player(
            a.players@[i],
            a.map,
        ))
    &&& (b.snowballs@.len() == a.snowballs@.len())
    &&& (forall|i: int| 0 <= i < b.snowballs@.len() ==> #[trigger] b.snowballs@[i] == (Snowball {
            body: drifted(a.snowballs@[i].body),
            ..a.snowballs@[i]
        }))
    &&& (b.ball == (match a.ball {
            Some(bl) => Some(Ball { body: moved_ball(bl.body, a.map) }),
            None => None,
        }))
    &&& ((GameState { players: b.players, snowballs: b.snowballs, ball: b.ball, ..a })
            == b)
}

fn move_player(p: &mut Player, map: &GameMap)
    requires
        player_ok(*old(p)),
        map.wf(),
    ensures
        player_ok(*final(p)),
        *final(p) == moved_player(*old(p), *map),
{
    if let PlayerStatus::Playing(_) = p.status {
        let mut rot = p.rot_deg;
        let mut spin = p.spin_ticks;
        if p.rotating_left {
            rot = rot - TURN_PER_TICK;
            spin = spin.saturating_add(1);
        }
        if p.rotating_right {
            rot = rot + TURN_PER_TICK;
            spin = spin.saturating_add(1);
        }
        if rot > 360 {
            rot = rot - 360;
        } else if rot < -360 {
            rot = rot + 360;
        }
        let b = p.body;
        let pos = Vec2 { x: step_axis(b.pos.x, b.vel.x, 0, map.width), y: step_axis(b.pos.y, b.vel.y, 0, map.height) };
        let f = map.physics.friction_per_frame;
        let vel = Vec2 { x: decay_axis(b.vel.x, f), y: decay_axis(b.vel.y, f) };
        p.rot_deg = rot;
        p.spin_ticks = spin;
        p.body = Body { pos, vel };
    }
}

fn drift(b: Body) -> (r: Body)
    requires
        b.bounded(),
    ensures
        r == drifted(b),
        r.bounded(),
{
    proof {
        lemma_div_tz_abs_le(b.vel.x as int, TICK_HZ as int);
        lemma_div_tz_abs_le(b.vel.y as int, TICK_HZ as int);
    }
    Body {
        pos: Vec2 {
            x: limit(b.pos.x as i128 + div_toward_zero(b.vel.x as i128, TICK_HZ as i128)),
            y: limit(b.pos.y as i128 + div_toward_zero(b.vel.y as i128, TICK_HZ as i128)),
        },
        vel: b.vel,
    }
}

/// Integrates one tick of motion: every playing player turns, charges,
/// moves and slows down within the map; every snowball drifts; the ball
/// moves and slows down, kept its radius inside the map.
pub fn simulate_movement(gs: &mut GameState)
    requires
        old(gs).wf(),
    ensures
        final(gs).wf(),
        moved_post(*old(gs), *final(gs)),
{
    let mut i: usize = 0;
    while i < gs.players.len()
        invariant
            i <= gs.players@.len(),
            gs.players@.len() == old(gs).players@.len(),
            gs.map.wf(),
            forall|j: int| 0 <= j < i ==> #[trigger] gs.players@[j] == moved_player(old(gs).players@[j], old(gs).map),
            forall|j: int| i <= j < gs.players@.len() ==> #[trigger] gs.players@[j] == old(gs).players@[j],
            forall|j: int| 0 <= j < gs.players@.len() ==> player_ok(#[trigger] gs.players@[j]),
            (GameState { players: gs.players, ..*old(gs) }) == *gs,
        decreases gs.players@.len() - i,
    {
        move_player(&mut gs.players[i], &gs.map);
        i += 1;
    }
    proof {
        assert forall|a: int, b: int|
            0 <= a < gs.players@.len() && 0 <= b < gs.players@.len() && a != b implies gs.players@[a].id@
            != gs.players@[b].id@ by {
            assert(gs.players@[a].id == old(gs).players@[a].id);
            assert(gs.players@[b].id == old(gs).players@[b].id);
        }
    }
    let ghost mid = *gs;
    let mut k: usize = 0;
    while k < gs.snowballs.len()
        invariant
            gs.players@.len() == old(gs).players@.len(),
            forall|j: int| 0 <= j < gs.players@.len() ==> #[trigger] gs.players@[j] == moved_player(old(gs).players@[j], old(gs).map),
            forall|j: int| 0 <= j < gs.players@.len() ==> player_ok(#[trigger] gs.players@[j]),
            ids_unique(gs.players@),
            (GameState { snowballs: gs.snowballs, ..mid }) == *gs,
            mid == (GameState { players: mid.players, ..*old(gs) }),
            k <= gs.snowballs@.len(),
            gs.snowballs@.len() == old(gs).snowballs@.len(),
            forall|j: int| 0 <= j < k ==> #[trigger] gs.snowballs@[j] == (Snowball {
                body: drifted(old(gs).snowballs@[j].body),
                ..old(gs).snowballs@[j]
            }),
            forall|j: int| k <= j < gs.snowballs@.len() ==> #[trigger] gs.snowballs@[j] == old(gs).snowballs@[j],
            forall|j: int| 0 <= j < gs.snowballs@.len() ==> (#[trigger] gs.snowballs@[j]).body.bounded(),
            forall|j: int| 0 <= j < old(gs).snowballs@.len() ==> (#[trigger] old(gs).snowballs@[j]).body.bounded(),
        decreases gs.snowballs@.len() - k,
    {
        let nb = drift(gs.snowballs[k].body);
        gs.snowballs[k].body = nb;
        k += 1;
    }
    if let Some(ball) = &mut gs.ball {
        let b = ball.body;
        let r = gs.map.physics.ball_radius;
        let pos = Vec2 {
            x: step_axis(b.pos.x, b.vel.x, r, gs.map.width - r),
            y: step_axis(b.pos.y, b.vel.y, r, gs.map.height - r),
        };
        let f = gs.map.physics.friction_per_frame;
        let vel = Vec2 { x: decay_axis(b.vel.x, f), y: decay_axis(b.vel.y, f) };
        ball.body = Body { pos, vel };
    }
}

} // verus!
