use vstd::prelude::*;

use crate::geom::{in_limit, Vec2, LIMIT, PERMILLE};
use crate::mask::{CollisionMaskTag, Team};

verus! {

/// The largest mass of a body, in thousandths (65.536 units). This is an
/// overflow limit, not a rule of the game: with coordinates and velocities
/// within `geom::LIMIT`, the impulse of the circle resolver (a product of a
/// displacement, a velocity product, a restitution and a mass) then fits in
/// 128 bits.
pub const MASS_MAX: i64 = 0x1_0000;

/// The largest restitution factor of a map object, in thousandths (4
/// units). An overflow limit like `MASS_MAX`: it bounds the reflected
/// velocity's product in `collide`.
pub const FACTOR_MAX: i64 = 4000;

/// Whether a connection plays for a team or watches.
#[derive(Clone, Copy, Debug, PartialEq, Eq, Hash, Structural)]
pub enum PlayerStatus {
    Spectator,
    Playing(Team),
}

impl PlayerStatus {
    /// Whether the player plays for a team.
    pub fn is_playing(&self) -> (r: bool)
        ensures
            r == (*self is Playing),
    {
        match self {
            PlayerStatus::Playing(_) => true,
            PlayerStatus::Spectator => false,
        }
    }
}

/// The phase of the match.
#[derive(Clone, Copy, Debug, PartialEq, Eq, Hash, Structural)]
pub enum MatchPhase {
    Lobby,
    Playing { score_limit: Option<u32>, time_limit_secs: Option<u32> },
}

/// An RGBA color of a team.
#[derive(Clone, Copy, Debug, PartialEq, Eq, Structural)]
pub struct TeamColor {
    pub r: u8,
    pub g: u8,
    pub b: u8,
    pub a: u8,
}

/// The RGBA fill color of a map object.
#[derive(Clone, Copy, Debug, PartialEq, Eq, Structural)]
pub struct ColorDef {
    pub r: u8,
    pub g: u8,
    pub b: u8,
    pub a: u8,
}

/// The rules that a match is played by.
#[derive(Clone, Copy, Debug, PartialEq, Eq, Structural)]
pub enum GameMode {
    Fight,
    Football,
    Ctf,
    Htf,
    KingOfTheHill,
    Race,
    DefendTerritory,
    Shooter,
}

/// Physics constants. Lengths are in thousandths of a map unit, masses and
/// fractions in thousandths, lifetimes in ticks. `wf` gives the bounds the
/// fixed-point simulation needs (see `MASS_MAX`, `fraction_ok`); settings
/// outside them are refused when a client sends them.
#[derive(Clone, Copy, Debug, PartialEq, Eq, Structural)]
pub struct PhysicsSettings {
    pub player_radius: i64,
    pub player_mass: i64,
    pub snowball_radius: i64,
    pub snowball_mass: i64,
    pub player_bounciness: i64,
    pub snowball_bounciness: i64,
    pub ball_radius: i64,
    pub ball_mass: i64,
    pub ball_bounciness: i64,
    pub friction_per_frame: i64,
    pub snowball_lifetime_ticks: u32,
}

/// A radius the simulation accepts.
pub open spec fn radius_ok(r: i64) -> bool {
    0 < r <= LIMIT
}

/// A mass the simulation accepts.
pub open spec fn mass_ok(m: i64) -> bool {
    0 < m <= MASS_MAX
}

/// A fraction in thousandths within `[0, 1]`.
///
/// Bounciness and friction are such fractions: a restitution above one would
/// add energy on each contact, a friction factor above one would speed
/// bodies up every tick; the bound also keeps the resolver's products
/// within 128 bits.
pub open spec fn fraction_ok(f: i64) -> bool {
    0 <= f <= PERMILLE
}

impl PhysicsSettings {
    /// Within the bounds that the simulation needs.
    pub open spec fn wf(self) -> bool {
        &&& radius_ok(self.player_radius)
        &&& radius_ok(self.snowball_radius)
        &&& radius_ok(self.ball_radius)
        &&& mass_ok(self.player_mass)
        &&& mass_ok(self.snowball_mass)
        &&& mass_ok(self.ball_mass)
        &&& fraction_ok(self.player_bounciness)
        &&& fraction_ok(self.snowball_bounciness)
        &&& fraction_ok(self.ball_bounciness)
        &&& fraction_ok(self.friction_per_frame)
    }

    /// Whether the settings are within the bounds that the simulation needs.
    pub fn is_valid(&self) -> (r: bool)
        ensures
            r == self.wf(),
    {
        0 < self.player_radius && self.player_radius <= LIMIT && 0 < self.snowball_radius
            && self.snowball_radius <= LIMIT && 0 < self.ball_radius && self.ball_radius <= LIMIT
            && 0 < self.player_mass && self.player_mass <= MASS_MAX && 0 < self.snowball_mass
            && self.snowball_mass <= MASS_MAX && 0 < self.ball_mass && self.ball_mass <= MASS_MAX
            && 0 <= self.player_bounciness && self.player_bounciness <= PERMILLE
            && 0 <= self.snowball_bounciness && self.snowball_bounciness <= PERMILLE
            && 0 <= self.ball_bounciness && self.ball_bounciness <= PERMILLE
            && 0 <= self.friction_per_frame && self.friction_per_frame <= PERMILLE
    }
}

impl Default for PhysicsSettings {
    fn default() -> (r: Self)
        ensures
            r.wf(),
            r.player_radius == 18000 && r.player_mass == 1000,
            r.snowball_radius == 8000 && r.snowball_mass == 500,
            r.player_bounciness == 900 && r.snowball_bounciness == 900,
            r.ball_radius == 10000 && r.ball_mass == 1000 && r.ball_bounciness == 800,
            r.friction_per_frame == 980,
            r.snowball_lifetime_ticks == 180,
    {
        PhysicsSettings {
            player_radius: 18000,
            player_mass: 1000,
            snowball_radius: 8000,
            snowball_mass: 500,
            player_bounciness: 900,
            snowball_bounciness: 900,
            ball_radius: 10000,
            ball_mass: 1000,
            ball_bounciness: 800,
            friction_per_frame: 980,
            snowball_lifetime_ticks: 180,
        }
    }
}

/// A static object of the map. Coordinates are in thousandths of a map unit;
/// `factor` scales the reflected velocity, in thousandths.
#[derive(Clone, Debug)]
pub enum MapObject {
    Circle {
        x: i64,
        y: i64,
        radius: i64,
        factor: i64,
        color: ColorDef,
        is_hole: bool,
        mask: Vec<CollisionMaskTag>,
    },
    Rect {
        x: i64,
        y: i64,
        w: i64,
        h: i64,
        factor: i64,
        color: ColorDef,
        is_hole: bool,
        mask: Vec<CollisionMaskTag>,
    },
}

impl MapObject {
    /// Within the bounds that the simulation needs.
    pub open spec fn wf(&self) -> bool {
        match self {
            MapObject::Circle { x, y, radius, factor, .. } => in_limit(*x as int) && in_limit(*y as int)
                && 0 <= *radius <= LIMIT && 0 <= *factor <= FACTOR_MAX,
            MapObject::Rect { x, y, w, h, factor, .. } => in_limit(*x as int) && in_limit(*y as int)
                && 0 <= *w <= LIMIT && 0 <= *h <= LIMIT && 0 <= *factor <= FACTOR_MAX,
        }
    }

    /// The categories the object interacts with.
    pub open spec fn mask_of(&self) -> Seq<CollisionMaskTag> {
        match self {
            MapObject::Circle { mask, .. } => mask@,
            MapObject::Rect { mask, .. } => mask@,
        }
    }

    /// Whether the object is a hole.
    pub open spec fn hole(&self) -> bool {
        match self {
            MapObject::Circle { is_hole, .. } => *is_hole,
            MapObject::Rect { is_hole, .. } => *is_hole,
        }
    }

    /// Whether the object is within the bounds that the simulation needs.
    pub fn is_valid(&self) -> (r: bool)
        ensures
            r == self.wf(),
    {
        match self {
            MapObject::Circle { x, y, radius, factor, .. } => -LIMIT <= *x && *x <= LIMIT && -LIMIT
                <= *y && *y <= LIMIT && 0 <= *radius && *radius <= LIMIT && 0 <= *factor && *factor
                <= FACTOR_MAX,
            MapObject::Rect { x, y, w, h, factor, .. } => -LIMIT <= *x && *x <= LIMIT && -LIMIT <= *y
                && *y <= LIMIT && 0 <= *w && *w <= LIMIT && 0 <= *h && *h <= LIMIT && 0 <= *factor
                && *factor <= FACTOR_MAX,
        }
    }
}

/// The spawn point of a team.
#[derive(Clone, Copy, Debug, PartialEq, Eq, Structural)]
pub struct TeamDef {
    pub spawn_x: i64,
    pub spawn_y: i64,
}

/// The spawn point of the ball.
#[derive(Clone, Copy, Debug, PartialEq, Eq, Structural)]
pub struct BallDef {
    pub spawn_x: i64,
    pub spawn_y: i64,
}

/// A goal rectangle owned by a team.
#[derive(Clone, Copy, Debug, PartialEq, Eq, Structural)]
pub struct GoalDef {
    pub x: i64,
    pub y: i64,
    pub w: i64,
    pub h: i64,
    pub team: Team,
}

/// The ball and goals of a map.
#[derive(Clone, Debug)]
pub struct FootballSettings {
    pub ball: BallDef,
    pub goals: Vec<GoalDef>,
}

/// A parsed map descriptor.
#[derive(Clone, Debug)]
pub struct GameMap {
    pub name: String,
    pub width: i64,
    pub height: i64,
    pub objects: Vec<MapObject>,
    pub physics: PhysicsSettings,
    pub mode: GameMode,
    pub team1: TeamDef,
    pub team2: TeamDef,
    pub ball: Option<BallDef>,
    pub football: Option<FootballSettings>,
}

/// Whether `(x, y)` lies on the map.
pub open spec fn point_in_map(x: i64, y: i64, width: i64, height: i64) -> bool {
    0 <= x <= width && 0 <= y <= height
}

/// A goal within the kinematic bound.
pub open spec fn goal_wf(g: GoalDef) -> bool {
    in_limit(g.x as int) && in_limit(g.y as int) && 0 <= g.w <= LIMIT && 0 <= g.h <= LIMIT
}

/// Every goal within the kinematic bound.
pub open spec fn goals_wf(goals: Seq<GoalDef>) -> bool {
    forall|i: int| 0 <= i < goals.len() ==> goal_wf(#[trigger] goals[i])
}

fn goals_valid(goals: &Vec<GoalDef>) -> (r: bool)
    ensures
        r == goals_wf(goals@),
{
    let mut k: usize = 0;
    while k < goals.len()
        invariant
            k <= goals@.len(),
            forall|j: int| 0 <= j < k ==> goal_wf(#[trigger] goals@[j]),
        decreases goals@.len() - k,
    {
        let g = goals[k];
        if !(-LIMIT <= g.x && g.x <= LIMIT && -LIMIT <= g.y && g.y <= LIMIT && 0 <= g.w && g.w
            <= LIMIT && 0 <= g.h && g.h <= LIMIT) {
            assert(!goal_wf(goals@[k as int]));
            return false;
        }
        k += 1;
    }
    true
}

impl GameMap {
    /// Within the bounds that the simulation needs.
    pub open spec fn wf(&self) -> bool {
        &&& 0 <= self.width <= LIMIT
        &&& 0 <= self.height <= LIMIT
        &&& self.physics.wf()
        &&& 2 * self.physics.ball_radius <= self.width
        &&& 2 * self.physics.ball_radius <= self.height
        &&& forall|i: int| 0 <= i < self.objects@.len() ==> (#[trigger] self.objects@[i]).wf()
        &&& point_in_map(self.team1.spawn_x, self.team1.spawn_y, self.width, self.height)
        &&& point_in_map(self.team2.spawn_x, self.team2.spawn_y, self.width, self.height)
        &&& (self.ball matches Some(b) ==> in_limit(b.spawn_x as int) && in_limit(b.spawn_y as int))
        &&& (self.football matches Some(f) ==> goals_wf(f.goals@))
    }

    /// Whether the map is within the bounds that the simulation needs.
    pub fn is_valid(&self) -> (r: bool)
        ensures
            r == self.wf(),
    {
        if !(0 <= self.width && self.width <= LIMIT && 0 <= self.height && self.height <= LIMIT) {
            return false;
        }
        if !self.physics.is_valid() {
            return false;
        }
        if !(2 * self.physics.ball_radius <= self.width && 2 * self.physics.ball_radius <= self.height) {
            return false;
        }
        let mut i: usize = 0;
        while i < self.objects.len()
            invariant
                i <= self.objects@.len(),
                forall|j: int| 0 <= j < i ==> (#[trigger] self.objects@[j]).wf(),
            decreases self.objects@.len() - i,
        {
            if !self.objects[i].is_valid() {
                return false;
            }
            i += 1;
        }
        if !(0 <= self.team1.spawn_x && self.team1.spawn_x <= self.width && 0 <= self.team1.spawn_y
            && self.team1.spawn_y <= self.height) {
            return false;
        }
        if !(0 <= self.team2.spawn_x && self.team2.spawn_x <= self.width && 0 <= self.team2.spawn_y
            && self.team2.spawn_y <= self.height) {
            return false;
        }
        if let Some(b) = &self.ball {
            if !(-LIMIT <= b.spawn_x && b.spawn_x <= LIMIT && -LIMIT <= b.spawn_y && b.spawn_y
                <= LIMIT) {
                return false;
            }
        }
        if let Some(f) = &self.football {
            return goals_valid(&f.goals);
        }
        true
    }
}

/// Position and velocity of a moving body.
#[derive(Clone, Copy, Debug, PartialEq, Eq, Structural)]
pub struct Body {
    pub pos: Vec2,
    pub vel: Vec2,
}

impl Body {
    /// Whether both components are within the kinematic bound.
    pub open spec fn bounded(self) -> bool {
        self.pos.bounded() && self.vel.bounded()
    }
}

} // verus!
