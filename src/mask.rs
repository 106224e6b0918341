use vstd::prelude::*;

verus! {

/// A team of players. Every match is played between exactly two teams.
#[derive(Clone, Copy, Debug, PartialEq, Eq, Hash, Structural)]
pub enum Team {
    Team1,
    Team2,
}

/// A category of body that a map object may interact with.
#[derive(Clone, Copy, Debug, PartialEq, Eq, Structural)]
pub enum CollisionMaskTag {
    Ball,
    PlayerTeam1,
    PlayerTeam2,
    Snowball,
}

/// The mask tag that stands for the players of `team`.
pub open spec fn player_tag(team: Team) -> CollisionMaskTag {
    match team {
        Team::Team1 => CollisionMaskTag::PlayerTeam1,
        Team::Team2 => CollisionMaskTag::PlayerTeam2,
    }
}

/// Whether `mask` lists `tag`.
fn mask_contains(mask: &Vec<CollisionMaskTag>, tag: CollisionMaskTag) -> (r: bool)
    ensures
        r == mask@.contains(tag),
{
    let mut i: usize = 0;
    while i < mask.len()
        invariant
            i <= mask@.len(),
            forall|j: int| 0 <= j < i ==> mask@[j] != tag,
        decreases mask@.len() - i,
    {
        if mask[i] == tag {
            return true;
        }
        i += 1;
    }
    false
}

/// Whether a map object with this mask interacts with the ball.
pub fn matches_ball(mask: &Vec<CollisionMaskTag>) -> (r: bool)
    ensures
        r == mask@.contains(CollisionMaskTag::Ball),
{
    mask_contains(mask, CollisionMaskTag::Ball)
}

/// Whether a map object with this mask interacts with players of `team`.
pub fn matches_player(mask: &Vec<CollisionMaskTag>, team: Team) -> (r: bool)
    ensures
        r == mask@.contains(player_tag(team)),
{
    match team {
        Team::Team1 => mask_contains(mask, CollisionMaskTag::PlayerTeam1),
        Team::Team2 => mask_contains(mask, CollisionMaskTag::PlayerTeam2),
    }
}

/// Whether a map object with this mask interacts with snowballs.
pub fn matches_snowball(mask: &Vec<CollisionMaskTag>) -> (r: bool)
    ensures
        r == mask@.contains(CollisionMaskTag::Snowball),
{
    mask_contains(mask, CollisionMaskTag::Snowball)
}

} // verus!
