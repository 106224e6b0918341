use spin_snowball::geom::Vec2;
use spin_snowball::mask::{CollisionMaskTag, Team};
use spin_snowball::model::{Body, ColorDef, GameMode, MapObject};
use spin_snowball::rules::GameModeRules;
use spin_snowball::terrain::{collide_with_map, BodyKind};

fn color() -> ColorDef {
    ColorDef { r: 0, g: 0, b: 0, a: 255 }
}

fn all_tags() -> Vec<CollisionMaskTag> {
    vec![CollisionMaskTag::Ball, CollisionMaskTag::PlayerTeam1, CollisionMaskTag::PlayerTeam2, CollisionMaskTag::Snowball]
}

fn body(x: i64, y: i64, vx: i64, vy: i64) -> Body {
    Body { pos: Vec2 { x, y }, vel: Vec2 { x: vx, y: vy } }
}

#[test]
fn solid_circle_bounces() {
    let objs = vec![MapObject::Circle {
        x: 30_000,
        y: 0,
        radius: 20_000,
        factor: 1000,
        color: color(),
        is_hole: false,
        mask: all_tags(),
    }];
    let (b, hole) = collide_with_map(body(0, 0, 1000, 0), 18_000, &objs, BodyKind::Player(Team::Team1));
    assert!(!hole);
    assert_eq!(b.pos, Vec2 { x: -8_000, y: 0 });
    assert_eq!(b.vel, Vec2 { x: -1000, y: 0 });
}

#[test]
fn mask_decides_who_collides() {
    let objs = vec![MapObject::Circle {
        x: 30_000,
        y: 0,
        radius: 20_000,
        factor: 1000,
        color: color(),
        is_hole: false,
        mask: vec![CollisionMaskTag::PlayerTeam2],
    }];
    let start = body(0, 0, 1000, 0);
    let (b, _) = collide_with_map(start, 18_000, &objs, BodyKind::Player(Team::Team1));
    assert_eq!(b, start);
    let (b, _) = collide_with_map(start, 18_000, &objs, BodyKind::Player(Team::Team2));
    assert_ne!(b, start);
}

#[test]
fn holes_hold_all_but_the_ball() {
    let objs = vec![MapObject::Rect {
        x: 0,
        y: 0,
        w: 100_000,
        h: 100_000,
        factor: 1000,
        color: color(),
        is_hole: true,
        mask: all_tags(),
    }];
    let start = body(50_000, 50_000, 10, 10);
    assert_eq!(collide_with_map(start, 8_000, &objs, BodyKind::Snowball), (start, true));
    assert_eq!(collide_with_map(start, 10_000, &objs, BodyKind::Ball), (start, false));
    assert_eq!(collide_with_map(start, 18_000, &objs, BodyKind::Player(Team::Team1)), (start, true));
}

#[test]
fn player_inside_rect_leaves_by_nearest_side() {
    let objs = vec![MapObject::Rect {
        x: 0,
        y: 0,
        w: 100_000,
        h: 100_000,
        factor: 1000,
        color: color(),
        is_hole: false,
        mask: all_tags(),
    }];
    let (b, hole) = collide_with_map(body(10_000, 50_000, 500, 0), 18_000, &objs, BodyKind::Player(Team::Team1));
    assert!(!hole);
    assert_eq!(b.pos, Vec2 { x: -8_000, y: 50_000 });
    assert_eq!(b.vel, Vec2 { x: -500, y: 0 });
}

#[test]
fn snowball_inside_rect_leaves_diagonally() {
    let objs = vec![MapObject::Rect {
        x: 0,
        y: 0,
        w: 100_000,
        h: 100_000,
        factor: 1000,
        color: color(),
        is_hole: false,
        mask: all_tags(),
    }];
    let (b, _) = collide_with_map(body(10_000, 50_000, 0, 0), 8_000, &objs, BodyKind::Snowball);
    assert_eq!(b.pos, Vec2 { x: 6_818, y: 53_182 });
}

#[test]
fn rules_follow_the_mode() {
    assert_eq!(GameModeRules::from_map_game_mode(GameMode::Htf), GameModeRules::HoldTheFlag);
    assert_eq!(GameModeRules::from_map_game_mode(GameMode::Ctf), GameModeRules::CaptureTheFlag);
    assert_eq!(GameModeRules::from_map_game_mode(GameMode::DefendTerritory), GameModeRules::DefendTerritory);
}
