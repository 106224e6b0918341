use vstd::prelude::*;

use crate::contact::{opt_view, SimulateCollisionResponse};
use crate::geom::Vec2;
use crate::mask::Team;
use crate::model::{Body, GameMode};
use crate::world::{
    ball_at_spawn, has_player, ids_unique, is_reset_of, lemma_reset_twice, other_team, respawned, team_of, Ball, GameState,
    Player, Scores, DEFAULT_ACTION_TICKS,
};

verus! {

/// The scoring rules of a game mode.
#[derive(Clone, Copy, Debug, PartialEq, Eq, Structural)]
pub enum GameModeRules {
    CaptureTheFlag,
    HoldTheFlag,
    Football,
    Fight,
    KingOfTheHill,
    Race,
    DefendTerritory,
    Shooter,
}

/// Ticks of holding the action that earn a point.
pub open spec fn target_ticks(gs: GameState) -> u64 {
    match gs.action_target_time {
        Some(t) => t,
        None => DEFAULT_ACTION_TICKS,
    }
}

/// One more tick on the action clock, held at the largest count.
pub open spec fn inc(t: u64) -> u64 {
    if t < u64::MAX {
        (t + 1) as u64
    } else {
        t
    }
}

/// The rules of a game mode.
pub open spec fn rules_of(mode: GameMode) -> GameModeRules {
    match mode {
        GameMode::Fight => GameModeRules::Fight,
        GameMode::Football => GameModeRules::Football,
        GameMode::Ctf => GameModeRules::CaptureTheFlag,
        GameMode::Htf => GameModeRules::HoldTheFlag,
        GameMode::KingOfTheHill => GameModeRules::KingOfTheHill,
        GameMode::Race => GameModeRules::Race,
        GameMode::DefendTerritory => GameModeRules::DefendTerritory,
        GameMode::Shooter => GameModeRules::Shooter,
    }
}

/// Scores after one point to every other team for each listed player,
/// `0..k`, that plays for a team.
pub open spec fn points_against(scores: Scores, ps: Seq<Player>, ids: Seq<String>, k: int) -> Scores
    decreases k,
{
    if k <= 0 {
        scores
    } else {
        let s = points_against(scores, ps, ids, k - 1);
        match team_of(ps, ids[k - 1]@) {
            Some(t) => s.plus_one(other_team(t)),
            None => s,
        }
    }
}

/// Players with the same ids and statuses answer the same team for an id.
proof fn lemma_team_of_same_roster(a: Seq<Player>, b: Seq<Player>, id: Seq<char>)
    requires
        a.len() == b.len(),
        ids_unique(a),
        forall|i: int| 0 <= i < a.len() ==> (#[trigger] b[i]).id == a[i].id && b[i].status == a[i].status,
    ensures
        team_of(a, id) == team_of(b, id),
{
    if exists|i: int| 0 <= i < a.len() && a[i].id@ == id {
        let i = choose|i: int| 0 <= i < a.len() && a[i].id@ == id;
        assert(b[i].id@ == id);
        let j = choose|j: int| 0 <= j < b.len() && b[j].id@ == id;
        assert(a[j].id == b[j].id);
        assert(i == j);
    } else {
        assert forall|j: int| 0 <= j < b.len() implies b[j].id@ != id by {
            assert(a[j].id == b[j].id);
        }
    }
}

impl GameState {
    /// Gives `team` one point.
    pub fn award(&mut self, team: Team)
        requires
            old(self).wf(),
        ensures
            final(self).wf(),
            (GameState { scores: old(self).scores.plus_one(team), ..*old(self) }) == *final(self),
            old(self).scores.le(final(self).scores),
    {
        self.scores.add_point(team);
    }

    /// Gives one point to every team but `team`.
    pub fn award_others(&mut self, team: Team)
        requires
            old(self).wf(),
        ensures
            final(self).wf(),
            (GameState { scores: old(self).scores.plus_one(other_team(team)), ..*old(self) }) == *final(self),
            old(self).scores.le(final(self).scores),
    {
        match team {
            Team::Team1 => self.scores.add_point(Team::Team2),
            Team::Team2 => self.scores.add_point(Team::Team1),
        }
    }

    /// Puts the ball back on its spawn point, at rest.
    fn ball_to_spawn(&mut self)
        requires
            old(self).wf(),
        ensures
            final(self).wf(),
            (GameState { ball: ball_at_spawn(old(self).map), ..*old(self) }) == *final(self),
    {
        self.ball = match &self.map.ball {
            Some(b) => Some(Ball { body: Body { pos: Vec2 { x: b.spawn_x, y: b.spawn_y }, vel: Vec2::zero() } }),
            None => None,
        };
    }

    /// Moves the ball onto the player holding the action, at rest.
    fn ball_to_carrier(&mut self)
        requires
            old(self).wf(),
        ensures
            final(self).wf(),
            (GameState {
                ball: ball_on_carrier(old(self).ball, old(self).player_with_active_action, old(self).players@),
                ..*old(self)
            }) == *final(self),
    {
        let carrier = match &self.player_with_active_action {
            Some((id, _)) => self.find_player(id),
            None => None,
        };
        if let Some(i) = carrier {
            proof {
                let k = self.player_with_active_action.unwrap().0;
                let j = index_of(self.players@, k@);
                assert(has_player(self.players@, k@));
                assert(self.players@[j].id@ == k@);
                assert(j == i);
            }
            if let Some(ball) = &mut self.ball {
                proof {
                    assert(crate::world::player_ok(self.players@[i as int]));
                }
                ball.body = Body { pos: self.players[i].body.pos, vel: Vec2::zero() };
            }
        }
    }

    /// Lets the first player to touch a free ball take it, then takes it
    /// from its holder if the holder was hit, the ball going back to its
    /// spawn.
    fn pickup_and_drop(&mut self, response: &SimulateCollisionResponse)
        requires
            old(self).wf(),
        ensures
            final(self).wf(),
            ({
                let held = picked_up(old(self).player_with_active_action, response.ball_touched_by_player);
                let hits = response.players_hit_by_snowball@;
                (GameState {
                    player_with_active_action: after_hits(held, hits),
                    ball: if holder_hit(held, hits) { ball_at_spawn(old(self).map) } else { old(self).ball },
                    ..*old(self)
                }) == *final(self)
            }),
    {
        if let Some(pid) = &response.ball_touched_by_player {
            if self.player_with_active_action.is_none() {
                self.player_with_active_action = Some((pid.clone(), 0));
            }
        }
        if carrier_hit(&self.player_with_active_action, &response.players_hit_by_snowball) {
            self.player_with_active_action = None;
            self.ball_to_spawn();
        }
    }
}

/// The holder of the action after a pickup: the first player to touch a
/// free ball takes it, with its clock at zero.
pub open spec fn picked_up(action: Option<(String, u64)>, touched: Option<String>) -> Option<(String, u64)> {
    match (action, touched) {
        (None, Some(t)) => Some((t, 0u64)),
        _ => action,
    }
}

/// The holder of the action after the hits: a hit holder loses it.
pub open spec fn after_hits(action: Option<(String, u64)>, hits: Seq<String>) -> Option<(String, u64)> {
    if holder_hit(action, hits) {
        None
    } else {
        action
    }
}

/// The index of the player with id `id`.
pub open spec fn index_of(ps: Seq<Player>, id: Seq<char>) -> int {
    choose|i: int| 0 <= i < ps.len() && ps[i].id@ == id
}

/// The ball after it follows the holder of the action: on the holder's
/// position, at rest. Without a holder (or a ball) it stays as it is.
pub open spec fn ball_on_carrier(ball: Option<Ball>, action: Option<(String, u64)>, ps: Seq<Player>) -> Option<Ball> {
    match (ball, action) {
        (Some(_), Some((k, _))) => if has_player(ps, k@) {
            Some(Ball { body: Body { pos: ps[index_of(ps, k@)].body.pos, vel: Vec2 { x: 0, y: 0 } } })
        } else {
            ball
        },
        _ => ball,
    }
}

/// The scores after a point for the team of player `id`, if it plays.
pub open spec fn point_for_player(scores: Scores, ps: Seq<Player>, id: Seq<char>) -> Scores {
    match team_of(ps, id) {
        Some(t) => scores.plus_one(t),
        None => scores,
    }
}

/// `b` is `a` after one tick of the mode's clock under `rules`.
pub open spec fn clock_post(rules: GameModeRules, a: GameState, b: GameState) -> bool {
    &&& a.scores.le(b.scores)
    &&& match (rules, a.player_with_active_action) {
        (GameModeRules::HoldTheFlag, Some((p, t))) => {
            let due = inc(t) >= target_ticks(a);
            (GameState {
                player_with_active_action: Some((p, if due { 0u64 } else { inc(t) })),
                scores: if due { point_for_player(a.scores, a.players@, p@) } else { a.scores },
                ..a
            }) == b
        },
        (GameModeRules::KingOfTheHill, Some((p, t))) => {
            let due = inc(t) >= target_ticks(a);
            &&& due ==> b.scores == point_for_player(a.scores, a.players@, p@) && is_reset_of(a, b)
            &&& !due ==> (GameState { player_with_active_action: Some((p, inc(t))), ..a }) == b
        },
        (GameModeRules::DefendTerritory, Some((p, t))) => (GameState {
            player_with_active_action: Some((p, inc(t))),
            ..a
        }) == b,
        (GameModeRules::DefendTerritory, None) => (GameState {
            player_with_active_action: b.player_with_active_action,
            ..a
        }) == b && (b.player_with_active_action matches Some((p, t)) && t == 0 && p@.len() == 0),
        _ => b == a,
    }
}

/// Whether a goal counts in capture the flag: the ball is in the goal of
/// the team of its carrier.
pub open spec fn flag_captured(action: Option<(String, u64)>, goal: Option<Team>, a: GameState) -> bool {
    &&& goal is Some
    &&& a.ball is Some
    &&& action is Some
    &&& team_of(a.players@, action.unwrap().0@) == goal
}

/// `b` is `a` after `rules` reacted to the collisions in `response`.
pub open spec fn response_post(rules: GameModeRules, response: SimulateCollisionResponse, a: GameState, b: GameState) -> bool {
    let holes = response.players_in_holes@;
    let hits = response.players_hit_by_snowball@;
    let goal = response.ball_in_goal_of_team;
    let held = picked_up(a.player_with_active_action, response.ball_touched_by_player);
    let kept = after_hits(held, hits);
    let dropped_ball = if holder_hit(held, hits) {
        ball_at_spawn(a.map)
    } else {
        a.ball
    };
    &&& a.scores.le(b.scores)
    &&& match rules {
        GameModeRules::Football => match goal {
            Some(t) => b.scores == a.scores.plus_one(t) && is_reset_of(a, b),
            None => b == a,
        },
        GameModeRules::Race => if holes.len() == 0 {
            b == a
        } else {
            b.scores == point_for_player(a.scores, a.players@, holes[0]@) && is_reset_of(a, b)
        },
        GameModeRules::KingOfTheHill => {
            let stays = match a.player_with_active_action {
                Some((k, t)) => exists|i: int| 0 <= i < holes.len() && holes[i]@ == k@,
                None => false,
            };
            &&& stays ==> b == a
            &&& !stays && holes.len() > 0 ==> (GameState { player_with_active_action: b.player_with_active_action, ..a })
                == b && (b.player_with_active_action matches Some((k, t)) && k@ == holes[0]@ && t == 0)
            &&& !stays && holes.len() == 0 ==> (GameState { player_with_active_action: None, ..a }) == b
        },
        GameModeRules::HoldTheFlag => (GameState {
            player_with_active_action: kept,
            ball: ball_on_carrier(dropped_ball, kept, a.players@),
            ..a
        }) == b,
        GameModeRules::CaptureTheFlag => if flag_captured(kept, goal, a) {
            b.scores == a.scores.plus_one(goal.unwrap()) && is_reset_of(a, b)
        } else {
            (GameState { player_with_active_action: kept, ball: ball_on_carrier(dropped_ball, kept, a.players@), ..a })
                == b
        },
        GameModeRules::Shooter => (GameState {
            scores: points_against(a.scores, a.players@, hits, hits.len() as int),
            ..a
        }) == b,
        GameModeRules::Fight => {
            &&& b.scores == points_against(a.scores, a.players@, holes, holes.len() as int)
            &&& (exists|i: int| 0 <= i < holes.len() && has_player(a.players@, holes[i]@)) ==> is_reset_of(a, b)
            &&& !(exists|i: int| 0 <= i < holes.len() && has_player(a.players@, holes[i]@)) ==> (GameState {
                scores: b.scores,
                ..a
            }) == b
        },
        GameModeRules::DefendTerritory => match (a.player_with_active_action, goal) {
            (Some((_, t)), Some(g)) => if t >= target_ticks(a) {
                b.scores == a.scores.plus_one(g) && is_reset_of(a, b)
            } else {
                b == a
            },
            _ => b == a,
        },
    }
}

impl GameModeRules {
    /// The rules of a map's game mode.
    pub fn from_map_game_mode(mode: GameMode) -> (r: Self)
        ensures
            r == rules_of(mode),
    {
        match mode {
            GameMode::Fight => GameModeRules::Fight,
            GameMode::Football => GameModeRules::Football,
            GameMode::Ctf => GameModeRules::CaptureTheFlag,
            GameMode::Htf => GameModeRules::HoldTheFlag,
            GameMode::KingOfTheHill => GameModeRules::KingOfTheHill,
            GameMode::Race => GameModeRules::Race,
            GameMode::DefendTerritory => GameModeRules::DefendTerritory,
            GameMode::Shooter => GameModeRules::Shooter,
        }
    }

    /// Advances the mode's clock by one tick. Hold the flag: the carrier's
    /// team scores each time the carrier has held the ball for the target
    /// time, and the clock restarts. King of the hill: the occupant's team
    /// scores once the target time is reached, the hill is freed and
    /// everybody respawns. Defend the territory: the contest clock runs
    /// while the match does.
    pub fn logic_step(&self, gs: &mut GameState)
        requires
            old(gs).wf(),
        ensures
            final(gs).wf(),
            clock_post(*self, *old(gs), *final(gs)),
    {
        let target = match gs.action_target_time {
            Some(t) => t,
            None => DEFAULT_ACTION_TICKS,
        };
        match self {
            GameModeRules::HoldTheFlag => {
                if let Some((player, time)) = &gs.player_with_active_action {
                    let player = player.clone();
                    let mut new_time = time.saturating_add(1);
                    if new_time >= target {
                        if let Some(team) = gs.get_team_of_player(&player) {
                            gs.award(team);
                        }
                        new_time = 0;
                    }
                    gs.player_with_active_action = Some((player, new_time));
                }
            },
            GameModeRules::KingOfTheHill => {
                if let Some((player, time)) = &gs.player_with_active_action {
                    let player = player.clone();
                    let new_time = time.saturating_add(1);
                    if new_time >= target {
                        if let Some(team) = gs.get_team_of_player(&player) {
                            gs.award(team);
                        }
                        gs.player_with_active_action = None;
                        gs.reset_positions();
                    } else {
                        gs.player_with_active_action = Some((player, new_time));
                    }
                }
            },
            GameModeRules::DefendTerritory => {
                if let Some((placeholder, time)) = &gs.player_with_active_action {
                    let placeholder = placeholder.clone();
                    let new_time = time.saturating_add(1);
                    gs.player_with_active_action = Some((placeholder, new_time));
                } else {
                    gs.player_with_active_action = Some((String::new(), 0));
                }
            },
            _ => {},
        }
    }

    /// Reacts to this tick's collisions.
    ///
    /// Fight: a player in a hole sends everybody back to spawn and gives a
    /// point to every other team. Football: a goal scores for the goal's
    /// team and everybody respawns. Capture the flag: the first player to
    /// touch the free ball carries it; a hit on the carrier drops it back
    /// to its spawn; the carrier's team scores in its own goal. Hold the
    /// flag: pickup and drop as above. King of the hill: the occupant loses
    /// the hill on leaving every hole; a free hill goes to the first player in
    /// a hole. Race: the first player in a hole scores for its team and
    /// everybody respawns. Defend the territory: once the contest clock has
    /// reached the target, a goal scores for the goal's team and everybody
    /// respawns. Shooter: a hit player gives a point to every other team.
    /// In both flag modes the ball then sits on its carrier, at rest.
    pub fn handle_collisions_response(&self, response: &SimulateCollisionResponse, gs: &mut GameState)
        requires
            old(gs).wf(),
        ensures
            final(gs).wf(),
            response_post(*self, *response, *old(gs), *final(gs)),
    {
        match self {
            GameModeRules::CaptureTheFlag => {
                gs.pickup_and_drop(response);
                let mut captured = false;
                if let Some(goal_team) = response.ball_in_goal_of_team {
                    if gs.ball.is_some() {
                        captured = match &gs.player_with_active_action {
                            Some((pid, _)) => match gs.get_team_of_player(pid) {
                                Some(t) => t == goal_team,
                                None => false,
                            },
                            None => false,
                        };
                    }
                }
                proof {
                    let held = picked_up(old(gs).player_with_active_action, response.ball_touched_by_player);
                    let kept = after_hits(held, response.players_hit_by_snowball@);
                    assert(gs.ball.is_some() == old(gs).ball.is_some());
                    assert(captured == flag_captured(kept, response.ball_in_goal_of_team, *old(gs)));
                }
                if captured {
                    if let Some(goal_team) = response.ball_in_goal_of_team {
                        gs.award(goal_team);
                        gs.reset_positions();
                    }
                }
                gs.ball_to_carrier();
            },
            GameModeRules::HoldTheFlag => {
                gs.pickup_and_drop(response);
                gs.ball_to_carrier();
            },
            GameModeRules::Football => {
                if let Some(scoring_team) = response.ball_in_goal_of_team {
                    gs.award(scoring_team);
                    gs.reset_positions();
                }
            },
            GameModeRules::Fight => {
                let holes = &response.players_in_holes;
                let mut k: usize = 0;
                let ghost mut found = false;
                while k < holes.len()
                    invariant
                        gs.wf(),
                        old(gs).wf(),
                        old(gs).scores.le(gs.scores),
                        k <= holes@.len(),
                        found == exists|i: int| 0 <= i < k && has_player(old(gs).players@, holes@[i]@),
                        found ==> is_reset_of(*old(gs), *gs),
                        !found ==> (GameState { scores: gs.scores, ..*old(gs) }) == *gs,
                        gs.players@.len() == old(gs).players@.len(),
                        forall|i: int| 0 <= i < gs.players@.len() ==> (#[trigger] gs.players@[i]).id == old(gs).players@[i].id
                            && gs.players@[i].status == old(gs).players@[i].status,
                        gs.scores == points_against(old(gs).scores, old(gs).players@, holes@, k as int),
                    decreases holes@.len() - k,
                {
                    let id = &holes[k];
                    proof {
                        assert(has_player(gs.players@, id@) == has_player(old(gs).players@, id@)) by {
                            if has_player(old(gs).players@, id@) {
                                let j = choose|j: int| 0 <= j < old(gs).players@.len() && old(gs).players@[j].id@ == id@;
                                assert(gs.players@[j].id == old(gs).players@[j].id);
                            }
                            if has_player(gs.players@, id@) {
                                let j = choose|j: int| 0 <= j < gs.players@.len() && gs.players@[j].id@ == id@;
                                assert(gs.players@[j].id == old(gs).players@[j].id);
                            }
                        }
                    }
                    if gs.find_player(id).is_some() {
                        let ghost before = *gs;
                        gs.reset_positions();
                        proof {
                            if found {
                                lemma_reset_twice(*old(gs), before, *gs);
                            }
                            assert forall|i: int| 0 <= i < gs.players@.len() implies (#[trigger] gs.players@[i]).id
                                == old(gs).players@[i].id && gs.players@[i].status == old(gs).players@[i].status by {
                                assert(gs.players@[i] == respawned(before.players@[i], gs.map));
                            }
                        }
                    }
                    proof {
                        lemma_team_of_same_roster(old(gs).players@, gs.players@, id@);
                        found = found || has_player(old(gs).players@, id@);
                        assert(found == exists|i: int| 0 <= i < k + 1 && has_player(old(gs).players@, holes@[i]@)) by {
                            if has_player(old(gs).players@, id@) {
                                assert(has_player(old(gs).players@, holes@[k as int]@));
                            }
                        }
                    }
                    if let Some(team) = gs.get_team_of_player(id) {
                        gs.award_others(team);
                    }
                    k += 1;
                }
            },
            GameModeRules::KingOfTheHill => {
                let keep = match &gs.player_with_active_action {
                    Some((king, _)) => contains_id(&response.players_in_holes, king),
                    None => false,
                };
                if !keep {
                    gs.player_with_active_action = None;
                    if response.players_in_holes.len() > 0 {
                        gs.player_with_active_action = Some((response.players_in_holes[0].clone(), 0));
                    }
                }
            },
            GameModeRules::Race => {
                if response.players_in_holes.len() > 0 {
                    if let Some(team) = gs.get_team_of_player(&response.players_in_holes[0]) {
                        gs.award(team);
                    }
                    gs.reset_positions();
                }
            },
            GameModeRules::DefendTerritory => {
                let target = match gs.action_target_time {
                    Some(t) => t,
                    None => DEFAULT_ACTION_TICKS,
                };
                if let Some((_, time)) = &gs.player_with_active_action {
                    if *time >= target {
                        if let Some(goal_team) = response.ball_in_goal_of_team {
                            gs.award(goal_team);
                            gs.player_with_active_action = None;
                            gs.reset_positions();
                        }
                    }
                }
            },
            GameModeRules::Shooter => {
                let mut k: usize = 0;
                while k < response.players_hit_by_snowball.len()
                    invariant
                        k <= response.players_hit_by_snowball@.len(),
                        gs.wf(),
                        old(gs).scores.le(gs.scores),
                        (GameState { scores: gs.scores, ..*old(gs) }) == *gs,
                        gs.scores == points_against(old(gs).scores, old(gs).players@, response.players_hit_by_snowball@, k as int),
                    decreases response.players_hit_by_snowball@.len() - k,
                {
                    if let Some(hit_team) = gs.get_team_of_player(&response.players_hit_by_snowball[k]) {
                        gs.award_others(hit_team);
                    }
                    k += 1;
                }
            },
        }
    }
}

/// Whether `ids` lists `id`.
pub fn contains_id(ids: &Vec<String>, id: &String) -> (r: bool)
    ensures
        r == exists|i: int| 0 <= i < ids@.len() && ids@[i]@ == id@,
{
    let mut i: usize = 0;
    while i < ids.len()
        invariant
            i <= ids@.len(),
            forall|j: int| 0 <= j < i ==> ids@[j]@ != id@,
        decreases ids@.len() - i,
    {
        if ids[i] == *id {
            return true;
        }
        i += 1;
    }
    false
}

/// Whether the holder of the action is among the hit players.
pub open spec fn holder_hit(action: Option<(String, u64)>, hits: Seq<String>) -> bool {
    match action {
        Some((k, _)) => exists|i: int| 0 <= i < hits.len() && hits[i]@ == k@,
        None => false,
    }
}

/// Whether the holder of the action is among the hit players.
fn carrier_hit(action: &Option<(String, u64)>, hits: &Vec<String>) -> (r: bool)
    ensures
        r == holder_hit(*action, hits@),
{
    match action {
        Some((k, _)) => contains_id(hits, k),
        None => false,
    }
}

} // verus!
