use spin_snowball::contact::SimulateCollisionResponse;
use spin_snowball::geom::Vec2;
use spin_snowball::mask::{CollisionMaskTag, Team};
use spin_snowball::model::{
    BallDef, ColorDef, FootballSettings, GameMap, GameMode, GoalDef, MapObject, MatchPhase, PhysicsSettings,
    PlayerStatus, TeamDef,
};
use spin_snowball::rules::GameModeRules;
use spin_snowball::session::{handle_client_message, ClientMessage, Command, Reply};
use spin_snowball::world::GameState;

const SEC: u64 = 1_000_000_000;

fn color() -> ColorDef {
    ColorDef { r: 10, g: 20, b: 30, a: 255 }
}

fn base_map(objects: Vec<MapObject>) -> GameMap {
    GameMap {
        name: "arena".to_string(),
        width: 1_000_000,
        height: 800_000,
        objects,
        physics: PhysicsSettings::default(),
        mode: GameMode::Fight,
        team1: TeamDef { spawn_x: 100_000, spawn_y: 400_000 },
        team2: TeamDef { spawn_x: 900_000, spawn_y: 400_000 },
        ball: None,
        football: None,
    }
}

fn hole(x: i64, y: i64, radius: i64) -> MapObject {
    MapObject::Circle {
        x,
        y,
        radius,
        factor: 1000,
        color: color(),
        is_hole: true,
        mask: vec![CollisionMaskTag::PlayerTeam1, CollisionMaskTag::PlayerTeam2],
    }
}

fn id(s: &str) -> String {
    s.to_string()
}

fn join(gs: &mut GameState, who: &str, team: Team) {
    assert!(gs.add_new_player(id(who)));
    let cmd = ClientMessage::Command { cmd: Command::JoinAsPlayer { team } };
    assert_eq!(handle_client_message(gs, &id(who), cmd, 0), Reply::Nothing);
}

fn start(gs: &mut GameState, now: u64) {
    let cmd = ClientMessage::Command { cmd: Command::Start { score_limit: None, time_limit_secs: None } };
    handle_client_message(gs, &id("a"), cmd, now);
}

fn shoot(gs: &mut GameState, who: &str, pressed: bool) {
    let msg = ClientMessage::Input { left: false, right: false, shoot: pressed };
    handle_client_message(gs, &id(who), msg, 0);
}

#[test]
fn start_needs_a_playing_player() {
    let mut gs = GameState::new(base_map(vec![]));
    gs.add_new_player(id("a"));
    start(&mut gs, 0);
    assert_eq!(gs.phase, MatchPhase::Lobby);
    let cmd = ClientMessage::Command { cmd: Command::JoinAsPlayer { team: Team::Team2 } };
    handle_client_message(&mut gs, &id("a"), cmd, 0);
    gs.scores.team1 = 4;
    start(&mut gs, 0);
    assert_eq!(gs.phase, MatchPhase::Playing { score_limit: None, time_limit_secs: None });
    assert_eq!(gs.scores.team1, 0);
    assert_eq!(gs.scores.team2, 0);
    assert_eq!(gs.players[0].body.pos, Vec2 { x: 900_000, y: 400_000 });
}

#[test]
fn start_while_playing_is_ignored() {
    let mut gs = GameState::new(base_map(vec![]));
    join(&mut gs, "a", Team::Team1);
    start(&mut gs, 0);
    gs.scores.team2 = 3;
    let cmd = ClientMessage::Command { cmd: Command::Start { score_limit: Some(9), time_limit_secs: None } };
    handle_client_message(&mut gs, &id("a"), cmd, 0);
    assert_eq!(gs.scores.team2, 3);
    assert_eq!(gs.phase, MatchPhase::Playing { score_limit: None, time_limit_secs: None });
}

#[test]
fn holding_fire_shoots_once() {
    let mut gs = GameState::new(base_map(vec![]));
    join(&mut gs, "a", Team::Team1);
    start(&mut gs, 0);
    for _ in 0..5 {
        shoot(&mut gs, "a", true);
        gs.tick(0);
    }
    assert_eq!(gs.snowballs.len(), 1);
    shoot(&mut gs, "a", false);
    shoot(&mut gs, "a", true);
    assert_eq!(gs.snowballs.len(), 2);
    assert_eq!(gs.snowballs[0].id, 1);
    assert_eq!(gs.snowballs[1].id, 2);
}

#[test]
fn shot_leaves_ahead_and_pushes_back() {
    let mut gs = GameState::new(base_map(vec![]));
    join(&mut gs, "a", Team::Team1);
    start(&mut gs, 0);
    shoot(&mut gs, "a", true);
    let sb = gs.snowballs[0];
    assert_eq!(sb.body.pos, Vec2 { x: 100_000, y: 374_000 });
    assert_eq!(sb.body.vel, Vec2 { x: 0, y: -370_000 });
    assert_eq!(sb.life, 180);
    // Recoil: 370000 * 650 / 3000 thousandths, backwards.
    assert_eq!(gs.players[0].body.vel, Vec2 { x: 0, y: 80_166 });
}

#[test]
fn inputs_ignored_in_lobby() {
    let mut gs = GameState::new(base_map(vec![]));
    join(&mut gs, "a", Team::Team1);
    shoot(&mut gs, "a", true);
    assert!(gs.snowballs.is_empty());
}

#[test]
fn snowballs_expire() {
    let mut gs = GameState::new(base_map(vec![]));
    join(&mut gs, "a", Team::Team1);
    start(&mut gs, 0);
    shoot(&mut gs, "a", true);
    for _ in 0..179 {
        gs.tick(0);
    }
    assert_eq!(gs.snowballs.len(), 1);
    gs.tick(0);
    assert!(gs.snowballs.is_empty());
}

#[test]
fn king_of_the_hill_scores_once() {
    let mut gs = GameState::new(base_map(vec![hole(500_000, 400_000, 50_000)]));
    gs.game_mode = GameMode::KingOfTheHill;
    gs.action_target_time = Some(600);
    join(&mut gs, "a", Team::Team1);
    start(&mut gs, 0);
    gs.players[0].body.pos = Vec2 { x: 500_000, y: 400_000 };
    gs.tick(0);
    assert_eq!(gs.player_with_active_action, Some((id("a"), 0)));
    for _ in 0..599 {
        gs.tick(0);
    }
    assert_eq!(gs.scores.team1, 0);
    assert_eq!(gs.player_with_active_action, Some((id("a"), 599)));
    gs.tick(0);
    assert_eq!(gs.scores.team1, 1);
    assert_eq!(gs.scores.team2, 0);
    assert_eq!(gs.player_with_active_action, None);
    assert_eq!(gs.players[0].body.pos, Vec2 { x: 100_000, y: 400_000 });
    for _ in 0..700 {
        gs.tick(0);
    }
    assert_eq!(gs.scores.team1, 1);
}

fn flag_map() -> GameMap {
    let mut map = base_map(vec![]);
    map.ball = Some(BallDef { spawn_x: 500_000, spawn_y: 400_000 });
    map
}

#[test]
fn hold_the_flag_scores_and_keeps_carrier() {
    let mut gs = GameState::new(flag_map());
    gs.game_mode = GameMode::Htf;
    gs.action_target_time = Some(600);
    join(&mut gs, "a", Team::Team2);
    start(&mut gs, 0);
    gs.players[0].body.pos = Vec2 { x: 480_000, y: 400_000 };
    gs.tick(0);
    assert_eq!(gs.player_with_active_action, Some((id("a"), 0)));
    for _ in 0..599 {
        gs.tick(0);
    }
    assert_eq!(gs.scores.team2, 0);
    gs.tick(0);
    assert_eq!(gs.scores.team2, 1);
    assert_eq!(gs.player_with_active_action, Some((id("a"), 0)));
}

#[test]
fn hold_the_flag_drops_on_hit() {
    let mut gs = GameState::new(flag_map());
    gs.player_with_active_action = Some((id("a"), 17));
    let response = SimulateCollisionResponse {
        players_in_holes: vec![],
        snowballs_in_holes: vec![],
        ball_in_goal_of_team: None,
        ball_touched_by_player: None,
        players_hit_by_snowball: vec![id("a")],
    };
    GameModeRules::HoldTheFlag.handle_collisions_response(&response, &mut gs);
    assert_eq!(gs.player_with_active_action, None);
    assert_eq!(gs.ball.unwrap().body.pos, Vec2 { x: 500_000, y: 400_000 });
}

#[test]
fn reload_map_mid_match() {
    let mut gs = GameState::new(base_map(vec![]));
    join(&mut gs, "a", Team::Team1);
    join(&mut gs, "b", Team::Team2);
    start(&mut gs, 0);
    shoot(&mut gs, "a", true);
    gs.scores.team2 = 2;
    gs.player_with_active_action = Some((id("b"), 5));
    let mut next = base_map(vec![]);
    next.team1 = TeamDef { spawn_x: 10_000, spawn_y: 20_000 };
    next.team2 = TeamDef { spawn_x: 30_000, spawn_y: 40_000 };
    let r = handle_client_message(&mut gs, &id("a"), ClientMessage::Command { cmd: Command::LoadMap { map: next } }, 0);
    assert_eq!(r, Reply::BroadcastMap);
    assert_eq!(gs.players[0].body.pos, Vec2 { x: 10_000, y: 20_000 });
    assert_eq!(gs.players[1].body.pos, Vec2 { x: 30_000, y: 40_000 });
    assert!(gs.snowballs.is_empty());
    assert_eq!(gs.player_with_active_action, None);
    assert_eq!(gs.scores.team2, 2);
    assert_eq!(gs.phase, MatchPhase::Playing { score_limit: None, time_limit_secs: None });
}

#[test]
fn invalid_map_is_refused() {
    let mut gs = GameState::new(base_map(vec![]));
    let mut bad = base_map(vec![]);
    bad.width = -1;
    let r = handle_client_message(&mut gs, &id("a"), ClientMessage::Command { cmd: Command::LoadMap { map: bad } }, 0);
    assert_eq!(r, Reply::Nothing);
    assert_eq!(gs.map.width, 1_000_000);
}

#[test]
fn fight_hole_scores_for_the_other_team() {
    let mut gs = GameState::new(base_map(vec![hole(500_000, 400_000, 50_000)]));
    join(&mut gs, "a", Team::Team1);
    start(&mut gs, 0);
    gs.players[0].body.pos = Vec2 { x: 500_000, y: 400_000 };
    gs.tick(0);
    assert_eq!(gs.scores.team2, 1);
    assert_eq!(gs.scores.team1, 0);
    assert_eq!(gs.players[0].body.pos, Vec2 { x: 100_000, y: 400_000 });
}

#[test]
fn football_goal_scores() {
    let mut map = flag_map();
    map.football = Some(FootballSettings {
        ball: BallDef { spawn_x: 500_000, spawn_y: 400_000 },
        goals: vec![GoalDef { x: 0, y: 300_000, w: 50_000, h: 200_000, team: Team::Team2 }],
    });
    let mut gs = GameState::new(map);
    gs.game_mode = GameMode::Football;
    join(&mut gs, "a", Team::Team1);
    start(&mut gs, 0);
    gs.ball.as_mut().unwrap().body.pos = Vec2 { x: 40_000, y: 400_000 };
    gs.tick(0);
    assert_eq!(gs.scores.team2, 1);
    assert_eq!(gs.ball.unwrap().body.pos, Vec2 { x: 500_000, y: 400_000 });
}

#[test]
fn score_limit_ends_match() {
    let mut gs = GameState::new(base_map(vec![]));
    join(&mut gs, "a", Team::Team1);
    let cmd = ClientMessage::Command { cmd: Command::Start { score_limit: Some(2), time_limit_secs: None } };
    handle_client_message(&mut gs, &id("a"), cmd, 0);
    gs.scores.team1 = 2;
    gs.tick(SEC);
    assert_eq!(gs.phase, MatchPhase::Lobby);
    assert_eq!(gs.players[0].status, PlayerStatus::Spectator);
}

#[test]
fn time_limit_ends_match() {
    let mut gs = GameState::new(base_map(vec![]));
    join(&mut gs, "a", Team::Team1);
    let cmd = ClientMessage::Command { cmd: Command::Start { score_limit: None, time_limit_secs: Some(3) } };
    handle_client_message(&mut gs, &id("a"), cmd, SEC);
    gs.tick(3 * SEC);
    assert!(matches!(gs.phase, MatchPhase::Playing { .. }));
    gs.tick(4 * SEC);
    assert_eq!(gs.phase, MatchPhase::Lobby);
}

#[test]
fn paused_match_stands_still() {
    let mut gs = GameState::new(base_map(vec![]));
    join(&mut gs, "a", Team::Team1);
    start(&mut gs, 0);
    gs.players[0].body.vel = Vec2 { x: 60_000, y: 0 };
    handle_client_message(&mut gs, &id("a"), ClientMessage::Command { cmd: Command::Pause }, SEC);
    gs.tick(2 * SEC);
    assert_eq!(gs.players[0].body.pos, Vec2 { x: 100_000, y: 400_000 });
    assert_eq!(gs.timer.elapsed(9 * SEC), SEC);
    handle_client_message(&mut gs, &id("a"), ClientMessage::Command { cmd: Command::Resume }, 9 * SEC);
    gs.tick(9 * SEC);
    assert_eq!(gs.players[0].body.pos, Vec2 { x: 101_000, y: 400_000 });
    assert_eq!(gs.players[0].body.vel, Vec2 { x: 58_800, y: 0 });
}

#[test]
fn ping_gets_pong() {
    let mut gs = GameState::new(base_map(vec![]));
    assert_eq!(handle_client_message(&mut gs, &id("x"), ClientMessage::Ping { ts: 77 }, 0), Reply::Pong { ts: 77 });
}

#[test]
fn players_come_and_go() {
    let mut gs = GameState::new(base_map(vec![]));
    assert!(gs.add_new_player(id("a")));
    assert!(!gs.add_new_player(id("a")));
    assert!(gs.add_new_player(id("b")));
    assert_eq!(gs.players[1].nick, "Player 2");
    gs.remove_player(&id("a"));
    assert_eq!(gs.players.len(), 1);
    assert_eq!(gs.players[0].id, "b");
    assert_eq!(gs.get_team_of_player(&id("b")), None);
    let cmd = ClientMessage::Command { cmd: Command::JoinAsPlayer { team: Team::Team1 } };
    handle_client_message(&mut gs, &id("b"), cmd, 0);
    assert_eq!(gs.get_team_of_player(&id("b")), Some(Team::Team1));
}

#[test]
fn scores_never_drop_during_a_match() {
    let mut gs = GameState::new(base_map(vec![hole(500_000, 400_000, 50_000)]));
    join(&mut gs, "a", Team::Team1);
    join(&mut gs, "b", Team::Team2);
    start(&mut gs, 0);
    let mut last = (0, 0);
    for k in 0..50u64 {
        if k % 7 == 0 {
            gs.players[(k % 2) as usize].body.pos = Vec2 { x: 500_000, y: 400_000 };
        }
        shoot(&mut gs, "a", k % 3 == 0);
        gs.tick(k);
        assert!(gs.scores.team1 >= last.0 && gs.scores.team2 >= last.1);
        last = (gs.scores.team1, gs.scores.team2);
    }
    assert!(last.0 + last.1 > 0);
}

fn ctf_response(goal: Option<Team>, hits: Vec<String>) -> SimulateCollisionResponse {
    SimulateCollisionResponse {
        players_in_holes: vec![],
        snowballs_in_holes: vec![],
        ball_in_goal_of_team: goal,
        ball_touched_by_player: None,
        players_hit_by_snowball: hits,
    }
}

#[test]
fn capture_counts_only_for_carriers_team() {
    let mut gs = GameState::new(flag_map());
    join(&mut gs, "a", Team::Team1);
    start(&mut gs, 0);
    gs.players[0].body.pos = Vec2 { x: 300_000, y: 200_000 };
    gs.player_with_active_action = Some((id("a"), 3));
    GameModeRules::CaptureTheFlag.handle_collisions_response(&ctf_response(Some(Team::Team2), vec![]), &mut gs);
    assert_eq!(gs.scores.team2, 0);
    assert_eq!(gs.player_with_active_action, Some((id("a"), 3)));
    assert_eq!(gs.ball.unwrap().body.pos, Vec2 { x: 300_000, y: 200_000 });
    assert_eq!(gs.ball.unwrap().body.vel, Vec2 { x: 0, y: 0 });
    GameModeRules::CaptureTheFlag.handle_collisions_response(&ctf_response(Some(Team::Team1), vec![]), &mut gs);
    assert_eq!(gs.scores.team1, 1);
    assert_eq!(gs.player_with_active_action, None);
    assert_eq!(gs.players[0].body.pos, Vec2 { x: 100_000, y: 400_000 });
    assert_eq!(gs.ball.unwrap().body.pos, Vec2 { x: 500_000, y: 400_000 });
}

#[test]
fn capture_hit_carrier_drops_flag() {
    let mut gs = GameState::new(flag_map());
    join(&mut gs, "a", Team::Team1);
    start(&mut gs, 0);
    gs.player_with_active_action = Some((id("a"), 3));
    GameModeRules::CaptureTheFlag.handle_collisions_response(&ctf_response(Some(Team::Team1), vec![id("a")]), &mut gs);
    assert_eq!(gs.scores.team1, 0);
    assert_eq!(gs.player_with_active_action, None);
    assert_eq!(gs.ball.unwrap().body.pos, Vec2 { x: 500_000, y: 400_000 });
}

#[test]
fn map_pass_tests_the_start_position() {
    let wall = MapObject::Circle {
        x: 25_000,
        y: 0,
        radius: 20_000,
        factor: 1000,
        color: color(),
        is_hole: false,
        mask: vec![CollisionMaskTag::Snowball],
    };
    let pit = MapObject::Circle {
        x: -10_000,
        y: 0,
        radius: 1_000,
        factor: 1000,
        color: color(),
        is_hole: true,
        mask: vec![CollisionMaskTag::Snowball],
    };
    let b = spin_snowball::model::Body { pos: Vec2 { x: 0, y: 0 }, vel: Vec2 { x: 0, y: 0 } };
    let (moved, in_hole) =
        spin_snowball::terrain::collide_with_map(b, 8_000, &vec![wall, pit], spin_snowball::terrain::BodyKind::Snowball);
    assert_eq!(moved.pos, Vec2 { x: -3_000, y: 0 });
    assert!(!in_hole);
}
