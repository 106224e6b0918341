use vstd::prelude::*;

use crate::mask::Team;
use crate::model::{GameMap, GameMode, MatchPhase, PhysicsSettings, PlayerStatus, TeamColor};
use crate::world::{
    input_post, nick_post, pause_post, respawned, resume_post, status_post, stop_post, GameState, Player,
};

verus! {

/// A command of a client.
#[derive(Clone, Debug)]
pub enum Command {
    Start { score_limit: Option<u32>, time_limit_secs: Option<u32> },
    Stop,
    Pause,
    Resume,
    /// A map descriptor, already parsed.
    LoadMap { map: GameMap },
    JoinAsPlayer { team: Team },
    JoinAsSpectator,
    SetNick { nick: String },
    SetTeamColor { color: TeamColor, team: Team },
    SetPhysicsSettings { settings: PhysicsSettings },
    /// The mode and its action target in ticks.
    SetGameMode { game_mode: GameMode, action_target_time: Option<u64> },
}

/// A decoded message of a client.
#[derive(Clone, Debug)]
pub enum ClientMessage {
    Input { left: bool, right: bool, shoot: bool },
    Ping { ts: u64 },
    Command { cmd: Command },
}

/// What the connection must send after a message was applied.
#[derive(Clone, Copy, Debug, PartialEq, Eq, Structural)]
pub enum Reply {
    Nothing,
    /// A pong to this client with the ping's timestamp.
    Pong { ts: u64 },
    /// The new map to every client.
    BroadcastMap,
    /// The new physics settings to every client.
    BroadcastPhysics,
}

/// Whether some connected player plays for a team.
pub open spec fn anyone_playing(ps: Seq<Player>) -> bool {
    exists|i: int| 0 <= i < ps.len() && ps[i].status is Playing
}

/// Whether settings can stand on `map`: within bounds, and the ball fits.
pub open spec fn settings_fit(s: PhysicsSettings, map: GameMap) -> bool {
    s.wf() && 2 * s.ball_radius <= map.width && 2 * s.ball_radius <= map.height
}

fn anyone_playing_exec(gs: &GameState) -> (r: bool)
    ensures
        r == anyone_playing(gs.players@),
{
    let mut i: usize = 0;
    while i < gs.players.len()
        invariant
            i <= gs.players@.len(),
            forall|j: int| 0 <= j < i ==> !(gs.players@[j].status is Playing),
        decreases gs.players@.len() - i,
    {
        if gs.players[i].status.is_playing() {
            return true;
        }
        i += 1;
    }
    false
}

/// Applies one message of client `client_id` at instant `now` and says what
/// to send. Inputs count only while a match is played. A start is obeyed
/// only in the lobby with at least one player in a team; a map or physics
/// settings out of bounds are refused and the old ones kept. Other invalid
/// commands are ignored.
pub fn handle_client_message(gs: &mut GameState, client_id: &String, msg: ClientMessage, now: u64) -> (r: Reply)
    requires
        old(gs).wf(),
    ensures
        final(gs).wf(),
        old(gs).phase is Playing ==> old(gs).scores.le(final(gs).scores),
        match msg {
            ClientMessage::Ping { ts } => r == (Reply::Pong { ts }) && *final(gs) == *old(gs),
            ClientMessage::Input { left, right, shoot } => r == Reply::Nothing && (old(gs).phase is Lobby ==> *final(gs)
                == *old(gs)) && (old(gs).phase is Playing ==> input_post(
                *old(gs),
                *final(gs),
                client_id@,
                left,
                right,
                shoot,
            )),
            ClientMessage::Command { cmd } => match cmd {
                Command::Start { score_limit, time_limit_secs } => r == Reply::Nothing && if old(gs).phase is Lobby
                    && anyone_playing(old(gs).players@) {
                    &&& final(gs).phase == (MatchPhase::Playing { score_limit, time_limit_secs })
                    &&& final(gs).scores.team1 == 0 && final(gs).scores.team2 == 0
                    &&& final(gs).snowballs@.len() == 0
                    &&& final(gs).players@.len() == old(gs).players@.len()
                    &&& forall|i: int| 0 <= i < final(gs).players@.len() ==> #[trigger] final(gs).players@[i]
                        == respawned(old(gs).players@[i], old(gs).map)
                } else {
                    *final(gs) == *old(gs)
                },
                Command::Stop => r == Reply::Nothing && stop_post(*old(gs), *final(gs), now),
                Command::Pause => r == Reply::Nothing && pause_post(*old(gs), *final(gs), now),
                Command::Resume => r == Reply::Nothing && resume_post(*old(gs), *final(gs), now),
                Command::JoinAsPlayer { team } => r == Reply::Nothing && status_post(
                    *old(gs),
                    *final(gs),
                    client_id@,
                    PlayerStatus::Playing(team),
                ),
                Command::JoinAsSpectator => r == Reply::Nothing && status_post(
                    *old(gs),
                    *final(gs),
                    client_id@,
                    PlayerStatus::Spectator,
                ),
                Command::SetNick { nick } => r == Reply::Nothing && nick_post(*old(gs), *final(gs), client_id@, nick),
                Command::LoadMap { map } => if map.wf() {
                    &&& r == Reply::BroadcastMap
                    &&& final(gs).map == map
                    &&& final(gs).scores == old(gs).scores
                    &&& final(gs).phase == old(gs).phase
                    &&& final(gs).snowballs@.len() == 0
                    &&& final(gs).player_with_active_action.is_none()
                    &&& final(gs).players@.len() == old(gs).players@.len()
                    &&& forall|i: int| 0 <= i < final(gs).players@.len() ==> #[trigger] final(gs).players@[i]
                        == respawned(old(gs).players@[i], map)
                } else {
                    r == Reply::Nothing && *final(gs) == *old(gs)
                },
                Command::SetPhysicsSettings { settings } => if settings_fit(settings, old(gs).map) {
                    r == Reply::BroadcastPhysics && final(gs).map.physics == settings
                } else {
                    r == Reply::Nothing && *final(gs) == *old(gs)
                },
                Command::SetGameMode { game_mode, action_target_time } => r == Reply::Nothing && final(gs).game_mode
                    == game_mode && final(gs).action_target_time == action_target_time
                    && final(gs).player_with_active_action.is_none(),
                Command::SetTeamColor { color, team } => r == Reply::Nothing && match team {
                    Team::Team1 => final(gs).team1_color == color,
                    Team::Team2 => final(gs).team2_color == color,
                },
            },
        },
{
    match msg {
        ClientMessage::Input { left, right, shoot } => {
            if let MatchPhase::Playing { .. } = gs.phase {
                gs.apply_input(client_id, left, right, shoot);
            }
            Reply::Nothing
        },
        ClientMessage::Ping { ts } => Reply::Pong { ts },
        ClientMessage::Command { cmd } => {
            match cmd {
                Command::Start { score_limit, time_limit_secs } => {
                    if let MatchPhase::Lobby = gs.phase {
                        if anyone_playing_exec(gs) {
                            gs.start_match(score_limit, time_limit_secs, now);
                        }
                    }
                },
                Command::Stop => gs.stop_match(now),
                Command::Pause => gs.pause_match(now),
                Command::Resume => gs.resume_match(now),
                Command::LoadMap { map } => {
                    if map.is_valid() {
                        gs.load_map(map);
                        return Reply::BroadcastMap;
                    }
                },
                Command::JoinAsPlayer { team } => gs.set_player_status(client_id, PlayerStatus::Playing(team)),
                Command::JoinAsSpectator => gs.set_player_status(client_id, PlayerStatus::Spectator),
                Command::SetNick { nick } => gs.set_nick(client_id, nick),
                Command::SetTeamColor { color, team } => match team {
                    Team::Team1 => gs.team1_color = color,
                    Team::Team2 => gs.team2_color = color,
                },
                Command::SetPhysicsSettings { settings } => {
                    if settings.is_valid() && 2 * settings.ball_radius <= gs.map.width && 2 * settings.ball_radius
                        <= gs.map.height {
                        gs.map.physics = settings;
                        return Reply::BroadcastPhysics;
                    }
                },
                Command::SetGameMode { game_mode, action_target_time } => {
                    gs.game_mode = game_mode;
                    gs.action_target_time = action_target_time;
                    gs.player_with_active_action = None;
                },
            }
            Reply::Nothing
        },
    }
}

} // verus!
