use vstd::prelude::*;

use crate::contact::{collided_post, simulate_collisions, SimulateCollisionResponse};
use crate::geom::{div_toward_zero, div_tz, Vec2, PERMILLE};
use crate::model::{Body, MatchPhase, PlayerStatus};
use crate::physics::lemma_div_tz_abs_le;
use crate::rules::{clock_post, response_post, rules_of, GameModeRules};
use crate::sim::{moved_post, simulate_movement};
use crate::world::{ended_post, GameState, Snowball};

verus! {

/// Thousandths of a snowball's velocity that remain after one tick of drag.
pub const SNOWBALL_DRAG: i64 = 995;

/// A snowball after one tick of aging: its life is one tick shorter and air
/// drag slows it.
pub open spec fn aged(sb: Snowball) -> Snowball {
    Snowball {
        life: (sb.life - 1) as u32,
        body: Body {
            pos: sb.body.pos,
            vel: Vec2 {
                x: div_tz(sb.body.vel.x * SNOWBALL_DRAG, PERMILLE as int) as i64,
                y: div_tz(sb.body.vel.y * SNOWBALL_DRAG, PERMILLE as int) as i64,
            },
        },
        ..sb
    }
}

/// Snowballs `0..k` after one tick of aging, those that run out of life left
/// out.
pub open spec fn age_all(sbs: Seq<Snowball>, k: int) -> Seq<Snowball>
    decreases k,
{
    if k <= 0 {
        Seq::empty()
    } else if sbs[k - 1].life > 1 {
        age_all(sbs, k - 1).push(aged(sbs[k - 1]))
    } else {
        age_all(sbs, k - 1)
    }
}

/// Snowballs `0..k` without those whose id is listed.
pub open spec fn without_ids(sbs: Seq<Snowball>, ids: Seq<u64>, k: int) -> Seq<Snowball>
    decreases k,
{
    if k <= 0 {
        Seq::empty()
    } else if ids.contains(sbs[k - 1].id) {
        without_ids(sbs, ids, k - 1)
    } else {
        without_ids(sbs, ids, k - 1).push(sbs[k - 1])
    }
}

fn drag(v: i64) -> (r: i64)
    requires
        -0x8000_0000 <= v <= 0x8000_0000,
    ensures
        r == div_tz(v * SNOWBALL_DRAG, PERMILLE as int),
        -0x8000_0000 <= r <= 0x8000_0000,
{
    proof {
        lemma_div_tz_abs_le(v * SNOWBALL_DRAG, PERMILLE as int);
        assert(-0x8000_0000 * 995 <= v * SNOWBALL_DRAG <= 0x8000_0000 * 995) by (nonlinear_arith)
            requires
                -0x8000_0000 <= v <= 0x8000_0000,
        ;
    }
    div_toward_zero(v as i128 * SNOWBALL_DRAG as i128, PERMILLE as i128) as i64
}

fn id_listed(ids: &Vec<u64>, id: u64) -> (r: bool)
    ensures
        r == ids@.contains(id),
{
    let mut i: usize = 0;
    while i < ids.len()
        invariant
            i <= ids@.len(),
            forall|j: int| 0 <= j < i ==> ids@[j] != id,
        decreases ids@.len() - i,
    {
        if ids[i] == id {
            return true;
        }
        i += 1;
    }
    false
}

/// A player as sent to clients.
#[derive(Clone, Debug)]
pub struct PlayerState {
    pub id: String,
    pub nick: String,
    pub pos: Vec2,
    pub vel: Vec2,
    pub rot_deg: i64,
    pub status: PlayerStatus,
}

/// A snowball as sent to clients.
#[derive(Clone, Copy, Debug, PartialEq, Eq, Structural)]
pub struct SnowballState {
    pub id: u64,
    pub pos: Vec2,
    pub vel: Vec2,
    pub life: u32,
}

/// `b` is `a` after its snowballs aged by one tick.
pub open spec fn aged_post(a: GameState, b: GameState) -> bool {
    &&& (b.snowballs@ == age_all(a.snowballs@, a.snowballs@.len() as int))
    &&& ((GameState { snowballs: b.snowballs, ..a }) == b)
}

/// `b` is `a` without the snowballs whose id is in `ids`.
pub open spec fn removed_post(a: GameState, b: GameState, ids: Seq<u64>) -> bool {
    &&& (b.snowballs@ == without_ids(a.snowballs@, ids, a.snowballs@.len() as int))
    &&& ((GameState { snowballs: b.snowballs, ..a }) == b)
}

/// One playing tick from `a` to `b`, through the states after each step in
/// the order they run: snowballs age (`s1`), the mode's clock runs (`s2`),
/// bodies move (`s3`), collisions are resolved and reported as `response`
/// (`s4`), the mode reacts (`s5`), snowballs in holes are removed (`s6`), and
/// the match ends if a limit is reached at `now`.
pub open spec fn playing_tick(
    a: GameState,
    s1: GameState,
    s2: GameState,
    s3: GameState,
    s4: GameState,
    s5: GameState,
    s6: GameState,
    response: SimulateCollisionResponse,
    b: GameState,
    now: u64,
) -> bool {
    let rules = rules_of(a.game_mode);
    &&& aged_post(a, s1)
    &&& clock_post(rules, s1, s2)
    &&& moved_post(s2, s3)
    &&& collided_post(s3, s4, response)
    &&& response_post(rules, response, s4, s5)
    &&& removed_post(s5, s6, response.snowballs_in_holes@)
    &&& ended_post(s6, b, now, s6.limit_reached(now as int))
}

impl GameState {
    /// Ages every snowball by one tick and removes those whose life ran out.
    pub fn logic_step(&mut self)
        requires
            old(self).wf(),
        ensures
            final(self).wf(),
            aged_post(*old(self), *final(self)),
    {
        let mut kept: Vec<Snowball> = Vec::new();
        let mut k: usize = 0;
        while k < self.snowballs.len()
            invariant
                k <= self.snowballs@.len(),
                self.wf(),
                *self == *old(self),
                kept@ == age_all(self.snowballs@, k as int),
                forall|j: int| 0 <= j < kept@.len() ==> (#[trigger] kept@[j]).body.bounded() && kept@[j].id
                    < self.next_snowball_id,
            decreases self.snowballs@.len() - k,
        {
            let sb = self.snowballs[k];
            proof {
                assert(self.snowballs@[k as int].body.bounded());
            }
            if sb.life > 1 {
                let vel = Vec2 { x: drag(sb.body.vel.x), y: drag(sb.body.vel.y) };
                kept.push(Snowball { life: sb.life - 1, body: Body { pos: sb.body.pos, vel }, ..sb });
            }
            k += 1;
        }
        self.snowballs = kept;
    }

    /// Removes the snowballs whose id is listed.
    pub fn remove_snowballs(&mut self, ids: &Vec<u64>)
        requires
            old(self).wf(),
        ensures
            final(self).wf(),
            removed_post(*old(self), *final(self), ids@),
    {
        let mut kept: Vec<Snowball> = Vec::new();
        let mut k: usize = 0;
        while k < self.snowballs.len()
            invariant
                k <= self.snowballs@.len(),
                self.wf(),
                *self == *old(self),
                kept@ == without_ids(self.snowballs@, ids@, k as int),
                forall|j: int| 0 <= j < kept@.len() ==> (#[trigger] kept@[j]).body.bounded() && kept@[j].id
                    < self.next_snowball_id,
            decreases self.snowballs@.len() - k,
        {
            let sb = self.snowballs[k];
            proof {
                assert(self.snowballs@[k as int].body.bounded());
            }
            if !id_listed(ids, sb.id) {
                kept.push(sb);
            }
            k += 1;
        }
        self.snowballs = kept;
    }

    /// One tick of the match at instant `now`. While paused, or in the lobby,
    /// nothing moves. Otherwise, in order: snowballs age, the mode's clock
    /// runs, bodies move, collisions are resolved, the mode reacts to them,
    /// snowballs in holes are removed, and the match ends when a limit is
    /// reached. Scores never go down.
    pub fn tick(&mut self, now: u64)
        requires
            old(self).wf(),
        ensures
            final(self).wf(),
            old(self).scores.le(final(self).scores),
            (old(self).paused || old(self).phase is Lobby) ==> *final(self) == *old(self),
            !old(self).paused && old(self).phase is Playing ==> exists|
                s1: GameState,
                s2: GameState,
                s3: GameState,
                s4: GameState,
                s5: GameState,
                s6: GameState,
                response: SimulateCollisionResponse,
            | #[trigger] playing_tick(*old(self), s1, s2, s3, s4, s5, s6, response, *final(self), now),
            final(self).phase is Playing ==> final(self).phase == old(self).phase,
            final(self).game_mode == old(self).game_mode,
            final(self).map == old(self).map,
    {
        if self.paused {
            return;
        }
        if let MatchPhase::Playing { .. } = self.phase {
            self.logic_step();
            let ghost s1 = *self;
            let rules = GameModeRules::from_map_game_mode(self.game_mode);
            rules.logic_step(self);
            let ghost s2 = *self;
            simulate_movement(self);
            let ghost s3 = *self;
            let response = simulate_collisions(self);
            let ghost s4 = *self;
            rules.handle_collisions_response(&response, self);
            let ghost s5 = *self;
            self.remove_snowballs(&response.snowballs_in_holes);
            let ghost s6 = *self;
            self.check_end_conditions(now);
            proof {
                assert(playing_tick(*old(self), s1, s2, s3, s4, s5, s6, response, *self, now));
            }
        }
    }

    /// The players and snowballs as sent to clients, in order.
    pub fn snapshot(&self) -> (r: (Vec<PlayerState>, Vec<SnowballState>))
        ensures
            r.0@.len() == self.players@.len(),
            forall|i: int| 0 <= i < r.0@.len() ==> {
                let p = #[trigger] self.players@[i];
                let s = r.0@[i];
                s.id == p.id && s.nick == p.nick && s.pos == p.body.pos && s.vel == p.body.vel && s.rot_deg
                    == p.rot_deg && s.status == p.status
            },
            r.1@.len() == self.snowballs@.len(),
            forall|i: int| 0 <= i < r.1@.len() ==> {
                let b = #[trigger] self.snowballs@[i];
                r.1@[i] == (SnowballState { id: b.id, pos: b.body.pos, vel: b.body.vel, life: b.life })
            },
    {
        let mut players: Vec<PlayerState> = Vec::new();
        let mut i: usize = 0;
        while i < self.players.len()
            invariant
                i <= self.players@.len(),
                players@.len() == i,
                forall|j: int| 0 <= j < i ==> {
                    let p = #[trigger] self.players@[j];
                    let s = players@[j];
                    s.id == p.id && s.nick == p.nick && s.pos == p.body.pos && s.vel == p.body.vel && s.rot_deg
                        == p.rot_deg && s.status == p.status
                },
            decreases self.players@.len() - i,
        {
            let p = &self.players[i];
            players.push(
                PlayerState {
                    id: p.id.clone(),
                    nick: p.nick.clone(),
                    pos: p.body.pos,
                    vel: p.body.vel,
                    rot_deg: p.rot_deg,
                    status: p.status,
                },
            );
            i += 1;
        }
        let mut snowballs: Vec<SnowballState> = Vec::new();
        let mut k: usize = 0;
        while k < self.snowballs.len()
            invariant
                k <= self.snowballs@.len(),
                snowballs@.len() == k,
                forall|j: int| 0 <= j < k ==> {
                    let b = #[trigger] self.snowballs@[j];
                    snowballs@[j] == (SnowballState { id: b.id, pos: b.body.pos, vel: b.body.vel, life: b.life })
                },
            decreases self.snowballs@.len() - k,
        {
            let b = self.snowballs[k];
            snowballs.push(SnowballState { id: b.id, pos: b.body.pos, vel: b.body.vel, life: b.life });
            k += 1;
        }
        (players, snowballs)
    }
}

/// Nanoseconds of one tick of the 60 Hz loop.
pub const TICK_NANOS: u64 = 16_666_667;

/// What the tick loop does on waking up.
#[derive(Clone, Copy, Debug, PartialEq, Eq, Structural)]
pub enum LoopAction {
    /// Run one simulation step now.
    Step,
    /// Sleep for the rest of the tick, in nanoseconds.
    Sleep { nanos: u64 },
}

/// The tick loop's decision, `elapsed` nanoseconds after the last step: one
/// step as soon as a tick has passed (never several to catch up, however far
/// behind), else sleep for the remainder of the tick.
pub fn next_loop_action(elapsed: u64) -> (r: LoopAction)
    ensures
        elapsed >= TICK_NANOS ==> r == LoopAction::Step,
        elapsed < TICK_NANOS ==> r == (LoopAction::Sleep { nanos: (TICK_NANOS - elapsed) as u64 }),
{
    if elapsed >= TICK_NANOS {
        LoopAction::Step
    } else {
        LoopAction::Sleep { nanos: TICK_NANOS - elapsed }
    }
}

} // verus!
