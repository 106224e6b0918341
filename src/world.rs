use vstd::prelude::*;

use crate::collide::lim;
use crate::geom::{div_toward_zero, div_tz, lemma_mul_abs_le, limit, Vec2, PERMILLE};
use crate::physics::lemma_div_tz_abs_le;
use crate::mask::Team;
use crate::model::{Body, GameMap, GameMode, MatchPhase, PhysicsSettings, PlayerStatus, TeamColor};
use crate::shot::{recoil, recoil_spec, shot_speed, shot_speed_spec, unit_dir, unit_dir_spec, MUZZLE_OFFSET};
use crate::text::{decimal_spec, default_nick};
use crate::timer::{MatchTimer, NANOS_PER_SEC};

verus! {

/// The rotation a player starts with, in degrees (facing up).
pub const START_ROTATION: i64 = -90;

/// Ticks of the action clock before a point, unless the mode says otherwise.
pub const DEFAULT_ACTION_TICKS: u64 = 600;

/// A connected client, playing or watching.
#[derive(Clone, Debug)]
pub struct Player {
    pub id: String,
    pub nick: String,
    pub body: Body,
    /// Rotation in whole degrees, within `[-360, 360]`.
    pub rot_deg: i64,
    pub rotating_left: bool,
    pub rotating_right: bool,
    /// Ticks during which a rotation intent was held since the last shot.
    pub spin_ticks: u32,
    /// The fire button as seen on the previous input.
    pub last_shoot_pressed: bool,
    pub status: PlayerStatus,
}

/// A projectile in flight.
#[derive(Clone, Copy, Debug, PartialEq, Eq, Structural)]
pub struct Snowball {
    pub id: u64,
    pub body: Body,
    /// Remaining lifetime in ticks.
    pub life: u32,
}

/// The ball of the modes that have one.
#[derive(Clone, Copy, Debug, PartialEq, Eq, Structural)]
pub struct Ball {
    pub body: Body,
}

/// Points of each team.
#[derive(Clone, Copy, Debug, PartialEq, Eq, Structural)]
pub struct Scores {
    pub team1: u32,
    pub team2: u32,
}

impl Scores {
    /// The points of `team`.
    pub open spec fn of(self, team: Team) -> u32 {
        match team {
            Team::Team1 => self.team1,
            Team::Team2 => self.team2,
        }
    }

    /// Both teams at zero.
    pub fn zero() -> (r: Scores)
        ensures
            r.team1 == 0 && r.team2 == 0,
    {
        Scores { team1: 0, team2: 0 }
    }

    /// The points of `team`.
    pub fn get(&self, team: Team) -> (r: u32)
        ensures
            r == self.of(team),
    {
        match team {
            Team::Team1 => self.team1,
            Team::Team2 => self.team2,
        }
    }

    /// The scores after one point for `team` (held at the largest count).
    pub open spec fn plus_one(self, team: Team) -> Scores {
        match team {
            Team::Team1 => Scores { team1: sat_inc(self.team1), team2: self.team2 },
            Team::Team2 => Scores { team1: self.team1, team2: sat_inc(self.team2) },
        }
    }

    /// Gives `team` one point.
    pub fn add_point(&mut self, team: Team)
        ensures
            *final(self) == old(self).plus_one(team),
    {
        match team {
            Team::Team1 => self.team1 = self.team1.saturating_add(1),
            Team::Team2 => self.team2 = self.team2.saturating_add(1),
        }
    }

    /// No team has fewer points in `later` than in `self`.
    pub open spec fn le(self, later: Scores) -> bool {
        self.team1 <= later.team1 && self.team2 <= later.team2
    }
}

/// `v + 1`, held at the largest count.
pub open spec fn sat_inc(v: u32) -> u32 {
    if v < u32::MAX {
        (v + 1) as u32
    } else {
        v
    }
}

/// The team that `team` plays against.
pub open spec fn other_team(team: Team) -> Team {
    match team {
        Team::Team1 => Team::Team2,
        Team::Team2 => Team::Team1,
    }
}

/// The authoritative state of a match server.
#[derive(Clone, Debug)]
pub struct GameState {
    pub players: Vec<Player>,
    pub snowballs: Vec<Snowball>,
    pub next_snowball_id: u64,
    pub map: GameMap,
    pub scores: Scores,
    pub ball: Option<Ball>,
    pub phase: MatchPhase,
    pub timer: MatchTimer,
    pub paused: bool,
    pub team1_color: TeamColor,
    pub team2_color: TeamColor,
    /// The holder of the mode's action (flag carrier, hill occupant) and the
    /// ticks it has held it.
    pub player_with_active_action: Option<(String, u64)>,
    pub game_mode: GameMode,
    /// Ticks of holding the action that earn a point.
    pub action_target_time: Option<u64>,
}

/// A player within the kinematic bound, its rotation within `[-360, 360]`.
pub open spec fn player_ok(p: Player) -> bool {
    p.body.bounded() && -360 <= p.rot_deg <= 360
}

/// No two players share an id.
pub open spec fn ids_unique(ps: Seq<Player>) -> bool {
    forall|i: int, j: int| 0 <= i < ps.len() && 0 <= j < ps.len() && i != j ==> ps[i].id@ != ps[j].id@
}

/// Whether a player has id `id`.
pub open spec fn has_player(ps: Seq<Player>, id: Seq<char>) -> bool {
    exists|i: int| 0 <= i < ps.len() && ps[i].id@ == id
}

/// The ball placed at its spawn point, at rest.
pub open spec fn ball_at_spawn(map: GameMap) -> Option<Ball> {
    match map.ball {
        Some(b) => Some(Ball { body: Body { pos: Vec2 { x: b.spawn_x, y: b.spawn_y }, vel: Vec2 { x: 0, y: 0 } } }),
        None => None,
    }
}

/// A player put back on the spawn point of its team, at rest and facing up;
/// a spectator is left as it is.
pub open spec fn respawned(p: Player, map: GameMap) -> Player {
    match p.status {
        PlayerStatus::Playing(Team::Team1) => Player {
            body: Body { pos: Vec2 { x: map.team1.spawn_x, y: map.team1.spawn_y }, vel: Vec2 { x: 0, y: 0 } },
            rot_deg: START_ROTATION,
            ..p
        },
        PlayerStatus::Playing(Team::Team2) => Player {
            body: Body { pos: Vec2 { x: map.team2.spawn_x, y: map.team2.spawn_y }, vel: Vec2 { x: 0, y: 0 } },
            rot_deg: START_ROTATION,
            ..p
        },
        PlayerStatus::Spectator => p,
    }
}

/// `b` is `a` with everything put back to spawn: every playing player on
/// its team's spawn point at rest facing up, no snowballs, no holder of the
/// mode's action, the ball on its spawn point at rest. Only the scores may
/// differ besides.
pub open spec fn is_reset_of(a: GameState, b: GameState) -> bool {
    &&& b.players@.len() == a.players@.len()
    &&& forall|i: int| 0 <= i < b.players@.len() ==> #[trigger] b.players@[i] == respawned(a.players@[i], a.map)
    &&& b.snowballs@.len() == 0
    &&& (GameState {
        players: b.players,
        snowballs: b.snowballs,
        player_with_active_action: None,
        ball: ball_at_spawn(a.map),
        scores: b.scores,
        ..a
    }) == b
}

/// Resetting twice is resetting once.
pub proof fn lemma_reset_twice(a: GameState, s: GameState, b: GameState)
    requires
        is_reset_of(a, s),
        is_reset_of(s, b),
    ensures
        is_reset_of(a, b),
{
    assert forall|i: int| 0 <= i < b.players@.len() implies #[trigger] b.players@[i] == respawned(a.players@[i], a.map) by {
        assert(s.players@[i] == respawned(a.players@[i], a.map));
        assert(b.players@[i] == respawned(s.players@[i], s.map));
    }
}

/// A player moved to the spectators.
pub open spec fn as_spectator(p: Player) -> Player {
    Player { status: PlayerStatus::Spectator, ..p }
}

/// Divisor of the recoil impulse: the thousandths of the direction and of
/// the strength, and the third of the shot's momentum that the player takes.
pub const RECOIL_DIVISOR: i128 = 3_000_000;

/// The player the input of `id` acts on, when the match is not paused and
/// that player plays.
pub open spec fn input_target(s: GameState, id: Seq<char>) -> Option<int> {
    if !s.paused && exists|i: int|
        0 <= i < s.players@.len() && s.players@[i].id@ == id && s.players@[i].status is Playing {
        Some(choose|i: int| 0 <= i < s.players@.len() && s.players@[i].id@ == id && s.players@[i].status is Playing)
    } else {
        None
    }
}

/// Whether an input fires: the button is down now and was up before.
pub open spec fn fires(p: Player, shoot: bool) -> bool {
    shoot && !p.last_shoot_pressed
}

/// The snowball that player `p` fires, with id `id`: it appears ahead of the
/// player along its facing and flies at the charged speed.
pub open spec fn shot_of(p: Player, phys: PhysicsSettings, id: u64) -> Snowball {
    let dir = unit_dir_spec(p.rot_deg as int);
    let speed = shot_speed_spec(p.spin_ticks as int);
    Snowball {
        id,
        body: Body {
            pos: Vec2 { x: lim(p.body.pos.x + dir.0 * MUZZLE_OFFSET), y: lim(p.body.pos.y + dir.1 * MUZZLE_OFFSET) },
            vel: Vec2 { x: lim(div_tz(dir.0 * speed, PERMILLE as int)), y: lim(div_tz(dir.1 * speed, PERMILLE as int)) },
        },
        life: phys.snowball_lifetime_ticks,
    }
}

/// A player after one input, and whether it fired. Firing pushes the player
/// back along its facing by the recoil, empties its charge and latches the
/// button; releasing the button clears the latch.
pub open spec fn input_step(p: Player, left: bool, right: bool, shoot: bool, phys: PhysicsSettings) -> (Player, bool) {
    let q = Player { rotating_left: left, rotating_right: right, ..p };
    if fires(p, shoot) {
        let dir = unit_dir_spec(p.rot_deg as int);
        let speed = shot_speed_spec(p.spin_ticks as int);
        let strength = recoil_spec(p.spin_ticks as int, phys);
        let vel = Vec2 {
            x: lim(p.body.vel.x - div_tz(dir.0 * speed * strength, RECOIL_DIVISOR as int)),
            y: lim(p.body.vel.y - div_tz(dir.1 * speed * strength, RECOIL_DIVISOR as int)),
        };
        (Player { body: Body { vel, ..p.body }, spin_ticks: 0, last_shoot_pressed: true, ..q }, true)
    } else if !shoot {
        (Player { last_shoot_pressed: false, ..q }, false)
    } else {
        (q, false)
    }
}

/// A player after a sequence of fire-button states, one input each (its
/// rotation intents kept), and the count of shots fired.
pub open spec fn run_shoot_inputs(p: Player, shoots: Seq<bool>, phys: PhysicsSettings) -> (Player, nat)
    decreases shoots.len(),
{
    if shoots.len() == 0 {
        (p, 0)
    } else {
        let before = run_shoot_inputs(p, shoots.drop_last(), phys);
        let q = before.0;
        let step = input_step(q, q.rotating_left, q.rotating_right, shoots.last(), phys);
        (step.0, before.1 + if step.1 {
            1nat
        } else {
            0nat
        })
    }
}

/// The fire button held down for `n` inputs.
pub open spec fn held(n: nat) -> Seq<bool> {
    Seq::new(n, |k: int| true)
}

/// Fire debounce: holding the fire button across `n >= 1` consecutive
/// inputs fires exactly one snowball when the button was up before, and
/// none when it was already held; the button stays latched.
pub proof fn lemma_fire_debounce(p: Player, n: nat, phys: PhysicsSettings)
    requires
        n >= 1,
    ensures
        run_shoot_inputs(p, held(n), phys).1 == (if p.last_shoot_pressed {
            0nat
        } else {
            1nat
        }),
        run_shoot_inputs(p, held(n), phys).0.last_shoot_pressed,
    decreases n,
{
    let shoots = held(n);
    assert(shoots.drop_last() =~= held((n - 1) as nat));
    assert(shoots.last());
    if n > 1 {
        lemma_fire_debounce(p, (n - 1) as nat, phys);
    } else {
        assert(shoots.drop_last() =~= Seq::<bool>::empty());
        assert(run_shoot_inputs(p, shoots.drop_last(), phys) == (p, 0nat));
    }
    let before = run_shoot_inputs(p, shoots.drop_last(), phys);
    let step = input_step(before.0, before.0.rotating_left, before.0.rotating_right, true, phys);
    assert(run_shoot_inputs(p, shoots, phys) == (step.0, before.1 + if step.1 { 1nat } else { 0nat }));
}

/// The team a player plays for, if it plays.
pub open spec fn team_of(ps: Seq<Player>, id: Seq<char>) -> Option<Team> {
    if exists|i: int| 0 <= i < ps.len() && ps[i].id@ == id {
        let i = choose|i: int| 0 <= i < ps.len() && ps[i].id@ == id;
        match ps[i].status {
            PlayerStatus::Playing(t) => Some(t),
            PlayerStatus::Spectator => None,
        }
    } else {
        None
    }
}

/// `b` is `a` after the end check at `now`, which answered `r`.
pub open spec fn ended_post(a: GameState, b: GameState, now: u64, r: bool) -> bool {
    &&& (r == a.limit_reached(now as int))
    &&& (!r ==> b == a)
    &&& (r ==> b.phase == MatchPhase::Lobby
            && b.timer == a.timer.paused(now as int)
            && GameState::all_spectators(a.players@, b.players@)
            && b.scores == a.scores && b.map == a.map
            && b.game_mode == a.game_mode)
}

/// `b` is `a` after the match stopped at `now`: back to the lobby, not paused,
/// the clock paused, every player a spectator.
pub open spec fn stop_post(a: GameState, b: GameState, now: u64) -> bool {
    &&& (b.phase == MatchPhase::Lobby)
    &&& (!b.paused)
    &&& (b.timer == a.timer.paused(now as int))
    &&& (GameState::all_spectators(a.players@, b.players@))
    &&& (b.scores == a.scores)
    &&& (b.snowballs == a.snowballs)
    &&& (b.ball == a.ball)
    &&& (b.map == a.map)
    &&& (b.player_with_active_action == a.player_with_active_action)
    &&& (b.game_mode == a.game_mode)
    &&& (b.action_target_time == a.action_target_time)
    &&& (b.next_snowball_id == a.next_snowball_id)
}

/// `b` is `a` after a pause at `now`: only a running match pauses, with its clock.
pub open spec fn pause_post(a: GameState, b: GameState, now: u64) -> bool {
    &&& (a.phase is Playing ==> (GameState { paused: true, timer: a.timer.paused(now as int), ..a }) == b)
    &&& (a.phase is Lobby ==> b == a)
}

/// `b` is `a` after a resume at `now`: only a running match resumes, with its clock.
pub open spec fn resume_post(a: GameState, b: GameState, now: u64) -> bool {
    &&& (a.phase is Playing ==> (GameState { paused: false, timer: a.timer.started(now as int), ..a }) == b)
    &&& (a.phase is Lobby ==> b == a)
}

/// `b` is `a` with the player of id `id` given `status`.
pub open spec fn status_post(a: GameState, b: GameState, id: Seq<char>, status: PlayerStatus) -> bool {
    &&& (b.players@.len() == a.players@.len())
    &&& (forall|i: int| 0 <= i < b.players@.len() ==> #[trigger] b.players@[i] == (if a.players@[i].id@ == id {
            Player { status, ..a.players@[i] }
        } else {
            a.players@[i]
        }))
    &&& ((GameState { players: b.players, ..a }) == b)
}

/// `b` is `a` with the player of id `id` renamed `nick`.
pub open spec fn nick_post(a: GameState, b: GameState, id: Seq<char>, nick: String) -> bool {
    &&& (b.players@.len() == a.players@.len())
    &&& (forall|i: int| 0 <= i < b.players@.len() ==> #[trigger] b.players@[i] == (if a.players@[i].id@ == id {
            Player { nick, ..a.players@[i] }
        } else {
            a.players@[i]
        }))
    &&& ((GameState { players: b.players, ..a }) == b)
}

/// `b` is `a` after the input of `id`: the targeted player's intents, fire
/// latch and recoil, and the snowball it fires, if any.
pub open spec fn input_post(a: GameState, b: GameState, id: Seq<char>, left: bool, right: bool, shoot: bool) -> bool {
    &&& (match input_target(a, id) {
            None => b == a,
            Some(i) => {
                let p = a.players@[i];
                let step = input_step(p, left, right, shoot, a.map.physics);
                let spawn = step.1 && a.next_snowball_id < u64::MAX;
                &&& b.players@ == a.players@.update(i, step.0)
                &&& spawn ==> b.snowballs@ == a.snowballs@.push(
                    shot_of(p, a.map.physics, a.next_snowball_id),
                ) && b.next_snowball_id == a.next_snowball_id + 1
                &&& !spawn ==> b.snowballs == a.snowballs && b.next_snowball_id
                    == a.next_snowball_id
                &&& (GameState {
                    players: b.players,
                    snowballs: b.snowballs,
                    next_snowball_id: b.next_snowball_id,
                    ..a
                }) == b
            },
        })
}

impl GameState {
    /// Within the bounds that the simulation needs.
    pub open spec fn wf(&self) -> bool {
        &&& self.map.wf()
        &&& forall|i: int| 0 <= i < self.players@.len() ==> player_ok(#[trigger] self.players@[i])
        &&& ids_unique(self.players@)
        &&& forall|i: int| 0 <= i < self.snowballs@.len() ==> (#[trigger] self.snowballs@[i]).body.bounded()
        &&& forall|i: int| 0 <= i < self.snowballs@.len() ==> (#[trigger] self.snowballs@[i]).id < self.next_snowball_id
        &&& (self.ball matches Some(b) ==> b.body.bounded())
        &&& self.ball.is_some() == self.map.ball.is_some()
        &&& self.timer.wf()
    }

    /// A server in the lobby on `map`, with nobody connected.
    pub fn new(map: GameMap) -> (r: Self)
        requires
            map.wf(),
        ensures
            r.wf(),
            r.players@.len() == 0,
            r.snowballs@.len() == 0,
            r.next_snowball_id == 1,
            r.phase == MatchPhase::Lobby,
            !r.paused,
            r.scores.team1 == 0 && r.scores.team2 == 0,
            r.ball == ball_at_spawn(map),
            r.player_with_active_action.is_none(),
            r.game_mode == GameMode::Fight,
            r.action_target_time == Some(DEFAULT_ACTION_TICKS),
            !r.timer.running && r.timer.accumulated == 0,
            r.map == map,
    {
        let ball = match &map.ball {
            Some(b) => Some(Ball { body: Body { pos: Vec2 { x: b.spawn_x, y: b.spawn_y }, vel: Vec2::zero() } }),
            None => None,
        };
        GameState {
            players: Vec::new(),
            snowballs: Vec::new(),
            next_snowball_id: 1,
            map,
            scores: Scores::zero(),
            ball,
            phase: MatchPhase::Lobby,
            timer: MatchTimer::new(),
            paused: false,
            team1_color: TeamColor { r: 200, g: 0, b: 0, a: 255 },
            team2_color: TeamColor { r: 0, g: 0, b: 200, a: 255 },
            player_with_active_action: None,
            game_mode: GameMode::Fight,
            action_target_time: Some(DEFAULT_ACTION_TICKS),
        }
    }

    /// The index of the player with this id.
    pub fn find_player(&self, id: &String) -> (r: Option<usize>)
        ensures
            r matches Some(i) ==> i < self.players@.len() && self.players@[i as int].id@ == id@,
            r.is_none() ==> !has_player(self.players@, id@),
    {
        let mut i: usize = 0;
        while i < self.players.len()
            invariant
                i <= self.players@.len(),
                forall|j: int| 0 <= j < i ==> self.players@[j].id@ != id@,
            decreases self.players@.len() - i,
        {
            if self.players[i].id == *id {
                return Some(i);
            }
            i += 1;
        }
        None
    }

    /// The team of the player with this id, when it plays.
    pub fn get_team_of_player(&self, player_id: &String) -> (r: Option<Team>)
        requires
            ids_unique(self.players@),
        ensures
            r == team_of(self.players@, player_id@),
    {
        match self.find_player(player_id) {
            Some(i) => {
                proof {
                    let j = choose|j: int| 0 <= j < self.players@.len() && self.players@[j].id@ == player_id@;
                    assert(j == i);
                }
                match self.players[i].status {
                    PlayerStatus::Playing(t) => Some(t),
                    PlayerStatus::Spectator => None,
                }
            },
            None => None,
        }
    }

    /// The players after a stop: everybody watches.
    pub open spec fn all_spectators(old_ps: Seq<Player>, new_ps: Seq<Player>) -> bool {
        &&& new_ps.len() == old_ps.len()
        &&& forall|i: int| 0 <= i < new_ps.len() ==> #[trigger] new_ps[i] == as_spectator(old_ps[i])
    }

    fn make_all_spectators(&mut self)
        requires
            old(self).wf(),
        ensures
            final(self).wf(),
            GameState::all_spectators(old(self).players@, final(self).players@),
            final(self).snowballs == old(self).snowballs,
            final(self).next_snowball_id == old(self).next_snowball_id,
            final(self).map == old(self).map,
            final(self).scores == old(self).scores,
            final(self).ball == old(self).ball,
            final(self).phase == old(self).phase,
            final(self).timer == old(self).timer,
            final(self).paused == old(self).paused,
            final(self).player_with_active_action == old(self).player_with_active_action,
            final(self).game_mode == old(self).game_mode,
            final(self).action_target_time == old(self).action_target_time,
            final(self).team1_color == old(self).team1_color,
            final(self).team2_color == old(self).team2_color,
    {
        let mut i: usize = 0;
        while i < self.players.len()
            invariant
                i <= self.players@.len(),
                self.players@.len() == old(self).players@.len(),
                forall|j: int| 0 <= j < i ==> #[trigger] self.players@[j] == as_spectator(old(self).players@[j]),
                forall|j: int| i <= j < self.players@.len() ==> #[trigger] self.players@[j] == old(self).players@[j],
                self.snowballs == old(self).snowballs,
                self.next_snowball_id == old(self).next_snowball_id,
                self.map == old(self).map,
                self.scores == old(self).scores,
                self.ball == old(self).ball,
                self.phase == old(self).phase,
                self.timer == old(self).timer,
                self.paused == old(self).paused,
                self.player_with_active_action == old(self).player_with_active_action,
                self.game_mode == old(self).game_mode,
                self.action_target_time == old(self).action_target_time,
                self.team1_color == old(self).team1_color,
                self.team2_color == old(self).team2_color,
            decreases self.players@.len() - i,
        {
            self.players[i].status = PlayerStatus::Spectator;
            i += 1;
        }
        proof {
            assert forall|a: int, b: int|
                0 <= a < self.players@.len() && 0 <= b < self.players@.len() && a != b implies self.players@[a].id@
                != self.players@[b].id@ by {
                assert(self.players@[a].id == old(self).players@[a].id);
                assert(self.players@[b].id == old(self).players@[b].id);
            }
            assert forall|a: int| 0 <= a < self.players@.len() implies player_ok(#[trigger] self.players@[a]) by {
                assert(player_ok(old(self).players@[a]));
            }
        }
    }

    /// Puts every playing player back on its team's spawn point, removes all
    /// snowballs, clears the mode's action and puts the ball on its spawn.
    pub fn reset_positions(&mut self)
        requires
            old(self).wf(),
        ensures
            final(self).wf(),
            final(self).players@.len() == old(self).players@.len(),
            forall|i: int| 0 <= i < final(self).players@.len() ==> #[trigger] final(self).players@[i] == respawned(
                old(self).players@[i],
                old(self).map,
            ),
            final(self).snowballs@.len() == 0,
            final(self).player_with_active_action.is_none(),
            final(self).ball == ball_at_spawn(old(self).map),
            (GameState {
                players: final(self).players,
                snowballs: final(self).snowballs,
                player_with_active_action: None,
                ball: final(self).ball,
                ..*old(self)
            }) == *final(self),
            is_reset_of(*old(self), *final(self)),
    {
        let mut i: usize = 0;
        while i < self.players.len()
            invariant
                i <= self.players@.len(),
                self.players@.len() == old(self).players@.len(),
                forall|j: int| 0 <= j < i ==> #[trigger] self.players@[j] == respawned(old(self).players@[j], old(self).map),
                forall|j: int| i <= j < self.players@.len() ==> #[trigger] self.players@[j] == old(self).players@[j],
                (GameState { players: self.players, ..*old(self) }) == *self,
            decreases self.players@.len() - i,
        {
            match self.players[i].status {
                PlayerStatus::Playing(Team::Team1) => {
                    let pos = Vec2 { x: self.map.team1.spawn_x, y: self.map.team1.spawn_y };
                    self.players[i].body = Body { pos, vel: Vec2::zero() };
                    self.players[i].rot_deg = START_ROTATION;
                },
                PlayerStatus::Playing(Team::Team2) => {
                    let pos = Vec2 { x: self.map.team2.spawn_x, y: self.map.team2.spawn_y };
                    self.players[i].body = Body { pos, vel: Vec2::zero() };
                    self.players[i].rot_deg = START_ROTATION;
                },
                PlayerStatus::Spectator => {},
            }
            i += 1;
        }
        self.snowballs = Vec::new();
        self.player_with_active_action = None;
        self.ball = match &self.map.ball {
            Some(b) => Some(Ball { body: Body { pos: Vec2 { x: b.spawn_x, y: b.spawn_y }, vel: Vec2::zero() } }),
            None => None,
        };
        proof {
            assert forall|a: int, b: int|
                0 <= a < self.players@.len() && 0 <= b < self.players@.len() && a != b implies self.players@[a].id@
                != self.players@[b].id@ by {
                assert(self.players@[a].id == old(self).players@[a].id);
                assert(self.players@[b].id == old(self).players@[b].id);
            }
            assert forall|a: int| 0 <= a < self.players@.len() implies player_ok(#[trigger] self.players@[a]) by {
                assert(player_ok(old(self).players@[a]));
                assert(self.players@[a] == respawned(old(self).players@[a], old(self).map));
            }
        }
    }

    /// Starts a match: both scores to zero, everybody to spawn, the clock
    /// from zero and running from `now`.
    pub fn start_match(&mut self, score_limit: Option<u32>, time_limit_secs: Option<u32>, now: u64)
        requires
            old(self).wf(),
        ensures
            final(self).wf(),
            final(self).scores.team1 == 0 && final(self).scores.team2 == 0,
            final(self).phase == (MatchPhase::Playing { score_limit, time_limit_secs }),
            final(self).timer == MatchTimer::zero().started(now as int),
            final(self).players@.len() == old(self).players@.len(),
            forall|i: int| 0 <= i < final(self).players@.len() ==> #[trigger] final(self).players@[i] == respawned(
                old(self).players@[i],
                old(self).map,
            ),
            final(self).snowballs@.len() == 0,
            final(self).player_with_active_action.is_none(),
            final(self).ball == ball_at_spawn(old(self).map),
            final(self).map == old(self).map,
            final(self).paused == old(self).paused,
            final(self).game_mode == old(self).game_mode,
            final(self).action_target_time == old(self).action_target_time,
    {
        self.scores = Scores::zero();
        self.reset_positions();
        self.phase = MatchPhase::Playing { score_limit, time_limit_secs };
        self.timer.reset();
        self.timer.start(now);
    }

    /// Ends the match: back to the lobby, the clock paused at `now`, every
    /// player a spectator.
    pub fn stop_match(&mut self, now: u64)
        requires
            old(self).wf(),
        ensures
            final(self).wf(),
            stop_post(*old(self), *final(self), now),
    {
        self.phase = MatchPhase::Lobby;
        self.paused = false;
        self.timer.pause(now);
        self.make_all_spectators();
    }

    /// Pauses a running match at `now`; does nothing in the lobby.
    pub fn pause_match(&mut self, now: u64)
        requires
            old(self).wf(),
        ensures
            final(self).wf(),
            pause_post(*old(self), *final(self), now),
    {
        if let MatchPhase::Playing { .. } = self.phase {
            self.paused = true;
            self.timer.pause(now);
        }
    }

    /// Resumes a paused match at `now`; does nothing in the lobby.
    pub fn resume_match(&mut self, now: u64)
        requires
            old(self).wf(),
        ensures
            final(self).wf(),
            resume_post(*old(self), *final(self), now),
    {
        if let MatchPhase::Playing { .. } = self.phase {
            self.paused = false;
            self.timer.start(now);
        }
    }

    /// Whether the running match has reached its score limit (by either team)
    /// or its time limit at `now`.
    pub open spec fn limit_reached(&self, now: int) -> bool {
        match self.phase {
            MatchPhase::Playing { score_limit, time_limit_secs } => {
                (score_limit matches Some(l) && (self.scores.team1 >= l || self.scores.team2 >= l))
                    || (time_limit_secs matches Some(secs) && self.timer.elapsed_at(now) / NANOS_PER_SEC as int
                    >= secs)
            },
            MatchPhase::Lobby => false,
        }
    }

    /// Ends the match when a limit is reached at `now`, and says whether it did.
    pub fn check_end_conditions(&mut self, now: u64) -> (r: bool)
        requires
            old(self).wf(),
        ensures
            final(self).wf(),
            ended_post(*old(self), *final(self), now, r),
    {
        if let MatchPhase::Playing { score_limit, time_limit_secs } = self.phase {
            let mut reached = false;
            if let Some(limit) = score_limit {
                if self.scores.team1 >= limit || self.scores.team2 >= limit {
                    reached = true;
                }
            }
            if let Some(secs) = time_limit_secs {
                if self.timer.elapsed_secs(now) >= secs as u64 {
                    reached = true;
                }
            }
            if reached {
                self.stop_match(now);
                return true;
            }
        }
        false
    }

    /// Replaces the map: every dynamic entity goes to the new spawn points,
    /// snowballs and the mode's action are cleared; scores and phase stay.
    pub fn load_map(&mut self, map: GameMap)
        requires
            old(self).wf(),
            map.wf(),
        ensures
            final(self).wf(),
            final(self).map == map,
            final(self).players@.len() == old(self).players@.len(),
            forall|i: int| 0 <= i < final(self).players@.len() ==> #[trigger] final(self).players@[i] == respawned(
                old(self).players@[i],
                map,
            ),
            final(self).snowballs@.len() == 0,
            final(self).player_with_active_action.is_none(),
            final(self).ball == ball_at_spawn(map),
            final(self).scores == old(self).scores,
            final(self).phase == old(self).phase,
            final(self).paused == old(self).paused,
            final(self).timer == old(self).timer,
    {
        self.ball = match &map.ball {
            Some(b) => Some(Ball { body: Body { pos: Vec2 { x: b.spawn_x, y: b.spawn_y }, vel: Vec2::zero() } }),
            None => None,
        };
        self.map = map;
        self.reset_positions();
    }

    /// Adds a spectator for a new connection, named after the count of
    /// players; does nothing and answers `false` when the id is taken.
    pub fn add_new_player(&mut self, id: String) -> (r: bool)
        requires
            old(self).wf(),
        ensures
            final(self).wf(),
            r == !has_player(old(self).players@, id@),
            r ==> final(self).players@.len() == old(self).players@.len() + 1
                && final(self).players@.drop_last() == old(self).players@
                && final(self).players@.last().id == id
                && (old(self).players@.len() < u64::MAX ==> final(self).players@.last().nick@ == "Player "@
                + decimal_spec((old(self).players@.len() + 1) as nat))
                && final(self).players@.last().status == PlayerStatus::Spectator
                && final(self).players@.last().body == (Body { pos: Vec2 { x: 0, y: 0 }, vel: Vec2 { x: 0, y: 0 } })
                && final(self).players@.last().rot_deg == START_ROTATION
                && final(self).players@.last().spin_ticks == 0
                && !final(self).players@.last().last_shoot_pressed,
            (GameState { players: final(self).players, ..*old(self) }) == *final(self),
            !r ==> final(self).players@ == old(self).players@,
    {
        if self.find_player(&id).is_some() {
            return false;
        }
        let count = self.players.len() as u64;
        let nick = if count < u64::MAX { default_nick(count + 1) } else { default_nick(count) };
        let p = Player {
            id,
            nick,
            body: Body { pos: Vec2::zero(), vel: Vec2::zero() },
            rot_deg: START_ROTATION,
            rotating_left: false,
            rotating_right: false,
            spin_ticks: 0,
            last_shoot_pressed: false,
            status: PlayerStatus::Spectator,
        };
        self.players.push(p);
        proof {
            assert(self.players@.drop_last() =~= old(self).players@);
            assert forall|a: int| 0 <= a < self.players@.len() implies player_ok(#[trigger] self.players@[a]) by {
                if a < old(self).players@.len() {
                    assert(self.players@[a] == old(self).players@[a]);
                }
            }
            assert forall|a: int, b: int|
                0 <= a < self.players@.len() && 0 <= b < self.players@.len() && a != b implies self.players@[a].id@
                != self.players@[b].id@ by {
                if a < old(self).players@.len() {
                    assert(self.players@[a] == old(self).players@[a]);
                }
                if b < old(self).players@.len() {
                    assert(self.players@[b] == old(self).players@[b]);
                }
            }
        }
        true
    }

    /// Removes the player of a closed connection; an unknown id changes nothing.
    pub fn remove_player(&mut self, id: &String)
        requires
            old(self).wf(),
        ensures
            final(self).wf(),
            !has_player(final(self).players@, id@),
            forall|p: Player| old(self).players@.contains(p) && p.id@ != id@ ==> final(self).players@.contains(p),
            forall|p: Player| final(self).players@.contains(p) ==> old(self).players@.contains(p),
            (GameState { players: final(self).players, ..*old(self) }) == *final(self),
    {
        if let Some(i) = self.find_player(id) {
            self.players.remove(i);
            proof {
                let o = old(self).players@;
                let n = self.players@;
                assert(n =~= o.remove(i as int));
                assert forall|a: int| 0 <= a < n.len() implies player_ok(#[trigger] n[a]) by {
                    if a < i {
                        assert(n[a] == o[a]);
                    } else {
                        assert(n[a] == o[a + 1]);
                    }
                }
                assert forall|a: int, b: int| 0 <= a < n.len() && 0 <= b < n.len() && a != b implies n[a].id@ != n[b].id@ by {
                    let oa = if a < i { a } else { a + 1 };
                    let ob = if b < i { b } else { b + 1 };
                    assert(n[a] == o[oa]);
                    assert(n[b] == o[ob]);
                }
                assert forall|a: int| 0 <= a < n.len() implies n[a].id@ != id@ by {
                    let oa = if a < i { a } else { a + 1 };
                    assert(n[a] == o[oa]);
                }
                assert forall|p: Player| o.contains(p) && p.id@ != id@ implies n.contains(p) by {
                    let k = choose|k: int| 0 <= k < o.len() && o[k] == p;
                    if k < i {
                        assert(n[k] == p);
                    } else {
                        assert(k != i);
                        assert(n[k - 1] == p);
                    }
                }
                assert forall|p: Player| n.contains(p) implies o.contains(p) by {
                    let k = choose|k: int| 0 <= k < n.len() && n[k] == p;
                    let ok = if k < i { k } else { k + 1 };
                    assert(o[ok] == p);
                }
            }
        }
    }

    /// Sets the status of the player with this id (joining a team or the
    /// spectators); an unknown id changes nothing.
    pub fn set_player_status(&mut self, id: &String, status: PlayerStatus)
        requires
            old(self).wf(),
        ensures
            final(self).wf(),
            status_post(*old(self), *final(self), id@, status),
    {
        if let Some(i) = self.find_player(id) {
            self.players[i].status = status;
            proof {
                let o = old(self).players@;
                let n = self.players@;
                assert forall|a: int| 0 <= a < n.len() implies player_ok(#[trigger] n[a]) by {
                    assert(player_ok(o[a]));
                }
                assert forall|a: int, b: int| 0 <= a < n.len() && 0 <= b < n.len() && a != b implies n[a].id@ != n[b].id@ by {
                    assert(n[a].id == o[a].id);
                    assert(n[b].id == o[b].id);
                }
            }
        }
    }

    /// Sets the nick of the player with this id; an unknown id changes nothing.
    pub fn set_nick(&mut self, id: &String, nick: String)
        requires
            old(self).wf(),
        ensures
            final(self).wf(),
            nick_post(*old(self), *final(self), id@, nick),
    {
        if let Some(i) = self.find_player(id) {
            self.players[i].nick = nick;
            proof {
                let o = old(self).players@;
                let n = self.players@;
                assert forall|a: int| 0 <= a < n.len() implies player_ok(#[trigger] n[a]) by {
                    assert(player_ok(o[a]));
                }
                assert forall|a: int, b: int| 0 <= a < n.len() && 0 <= b < n.len() && a != b implies n[a].id@ != n[b].id@ by {
                    assert(n[a].id == o[a].id);
                    assert(n[b].id == o[b].id);
                }
            }
        }
    }

    /// Applies a player's per-frame input: its rotation intents, and a shot
    /// on a rising edge of the fire button. While paused, or for an unknown
    /// id or a spectator, nothing changes.
    pub fn apply_input(&mut self, id: &String, left: bool, right: bool, shoot: bool)
        requires
            old(self).wf(),
        ensures
            final(self).wf(),
            input_post(*old(self), *final(self), id@, left, right, shoot),
    {
        if self.paused {
            return;
        }
        let i = match self.find_player(id) {
            Some(i) => i,
            None => {
                return;
            },
        };
        if self.players[i].status == PlayerStatus::Spectator {
            proof {
                assert forall|j: int| 0 <= j < self.players@.len() && self.players@[j].id@ == id@ implies !(
                self.players@[j].status is Playing) by {
                    assert(j == i);
                }
            }
            return;
        }
        proof {
            assert(input_target(*old(self), id@) == Some(i as int)) by {
                let j = choose|j: int| 0 <= j < self.players@.len() && self.players@[j].id@ == id@ && self.players@[j].status is Playing;
                assert(j == i);
            }
        }
        self.players[i].rotating_left = left;
        self.players[i].rotating_right = right;
        if shoot && !self.players[i].last_shoot_pressed {
            let rot = self.players[i].rot_deg;
            let spin = self.players[i].spin_ticks;
            let pos = self.players[i].body.pos;
            let vel = self.players[i].body.vel;
            let dir = unit_dir(rot);
            let speed = shot_speed(spin);
            let strength = recoil(spin, &self.map.physics);
            proof {
                lemma_mul_abs_le(dir.0 as int, speed as int, 1000, 1_000_000);
                lemma_mul_abs_le(dir.1 as int, speed as int, 1000, 1_000_000);
                lemma_mul_abs_le(dir.0 * speed, strength as int, 1_000_000_000, 2600);
                lemma_mul_abs_le(dir.1 * speed, strength as int, 1_000_000_000, 2600);
            }
            if self.next_snowball_id < u64::MAX {
                let sid = self.next_snowball_id;
                let sb = Snowball {
                    id: sid,
                    body: Body {
                        pos: Vec2 {
                            x: limit(pos.x as i128 + dir.0 as i128 * MUZZLE_OFFSET as i128),
                            y: limit(pos.y as i128 + dir.1 as i128 * MUZZLE_OFFSET as i128),
                        },
                        vel: Vec2 {
                            x: limit(div_toward_zero(dir.0 as i128 * speed as i128, PERMILLE as i128)),
                            y: limit(div_toward_zero(dir.1 as i128 * speed as i128, PERMILLE as i128)),
                        },
                    },
                    life: self.map.physics.snowball_lifetime_ticks,
                };
                self.snowballs.push(sb);
                self.next_snowball_id = sid + 1;
            }
            let kx = div_toward_zero(dir.0 as i128 * speed as i128 * strength as i128, RECOIL_DIVISOR);
            let ky = div_toward_zero(dir.1 as i128 * speed as i128 * strength as i128, RECOIL_DIVISOR);
            proof {
                lemma_div_tz_abs_le(dir.0 * speed * strength, RECOIL_DIVISOR as int);
                lemma_div_tz_abs_le(dir.1 * speed * strength, RECOIL_DIVISOR as int);
            }
            self.players[i].body.vel = Vec2 { x: limit(vel.x as i128 - kx), y: limit(vel.y as i128 - ky) };
            self.players[i].spin_ticks = 0;
            self.players[i].last_shoot_pressed = true;
        } else if !shoot {
            self.players[i].last_shoot_pressed = false;
        }
        proof {
            let o = old(self).players@;
            let n = self.players@;
            assert(n =~= o.update(i as int, input_step(o[i as int], left, right, shoot, old(self).map.physics).0));
            assert forall|a: int| 0 <= a < n.len() implies player_ok(#[trigger] n[a]) by {
                assert(player_ok(o[a]));
            }
            assert forall|a: int, b: int| 0 <= a < n.len() && 0 <= b < n.len() && a != b implies n[a].id@ != n[b].id@ by {
                assert(n[a].id == o[a].id);
                assert(n[b].id == o[b].id);
            }
            assert forall|a: int| 0 <= a < self.snowballs@.len() implies (#[trigger] self.snowballs@[a]).body.bounded()
                && self.snowballs@[a].id < self.next_snowball_id by {
                if a < old(self).snowballs@.len() {
                    assert(self.snowballs@[a] == old(self).snowballs@[a]);
                }
            }
        }
    }
}

} // verus!
