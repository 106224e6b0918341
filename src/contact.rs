use vstd::prelude::*;

use crate::geom::{
    circle_intersects_rect, circle_rect_overlap, isqrt, lemma_mul_abs_le, lemma_square_nonneg, LIMIT,
};
use crate::mask::Team;
use crate::model::{goal_wf, goals_wf, Body, GameMap, GoalDef, PhysicsSettings, PlayerStatus};
use crate::physics::{lemma_sqrt_floor_unique, resolvable, resolve_circle_circle, resolve_spec};
use crate::terrain::{collide_with_map, terrain_fold, BodyKind};
use crate::world::{ids_unique, player_ok, Ball, GameState, Player, Snowball};

verus! {

/// Players after the overlap of players `i` and `j` is resolved, when both
/// play.
pub open spec fn pp_pair(ps: Seq<Player>, i: int, j: int, phys: PhysicsSettings) -> Seq<Player> {
    if ps[i].status is Playing && ps[j].status is Playing {
        let r = resolve_spec(
            ps[i].body,
            ps[j].body,
            phys.player_radius as int,
            phys.player_mass as int,
            phys.player_radius as int,
            phys.player_mass as int,
            phys.player_bounciness as int,
        );
        ps.update(i, Player { body: r.0, ..ps[i] }).update(j, Player { body: r.1, ..ps[j] })
    } else {
        ps
    }
}

/// Players after the pairs `(i, j)`, `(i, j + 1)`, ... `(i, n - 1)`, in order.
pub open spec fn pp_row(ps: Seq<Player>, i: int, j: int, n: int, phys: PhysicsSettings) -> Seq<Player>
    decreases n - j,
{
    if j >= n {
        ps
    } else {
        pp_row(pp_pair(ps, i, j, phys), i, j + 1, n, phys)
    }
}

/// Players after every pair `(a, b)` with `i <= a < b < n`, row by row.
pub open spec fn pp_rows(ps: Seq<Player>, i: int, n: int, phys: PhysicsSettings) -> Seq<Player>
    decreases n - i,
{
    if i >= n {
        ps
    } else {
        pp_rows(pp_row(ps, i, i + 1, n, phys), i + 1, n, phys)
    }
}

/// Every player is within bounds.
pub open spec fn players_ok(ps: Seq<Player>) -> bool {
    forall|j: int| 0 <= j < ps.len() ==> player_ok(#[trigger] ps[j])
}

/// Same players, but for their bodies.
pub open spec fn same_but_bodies(a: Seq<Player>, b: Seq<Player>) -> bool {
    a.len() == b.len() && forall|j: int| 0 <= j < a.len() ==> (Player { body: b[j].body, ..a[j] }) == #[trigger] b[j]
}

/// Changing bodies keeps ids unique.
proof fn lemma_same_but_bodies_ids(a: Seq<Player>, b: Seq<Player>)
    requires
        same_but_bodies(a, b),
        ids_unique(a),
    ensures
        ids_unique(b),
{
    assert forall|x: int, y: int| 0 <= x < b.len() && 0 <= y < b.len() && x != y implies b[x].id@ != b[y].id@ by {
        assert(b[x].id == a[x].id);
        assert(b[y].id == a[y].id);
    }
}

/// `b` is `a` after the player-player pass.
pub open spec fn pp_post(a: GameState, b: GameState) -> bool {
    &&& (b.players@ == pp_rows(a.players@, 0, a.players@.len() as int, a.map.physics))
    &&& (same_but_bodies(a.players@, b.players@))
    &&& ((GameState { players: b.players, ..a }) == b)
}

/// Resolves every overlapping pair of playing players, pair by pair in the
/// order of the players.
pub fn simulate_player_player_collisions(gs: &mut GameState)
    requires
        old(gs).wf(),
    ensures
        final(gs).wf(),
        pp_post(*old(gs), *final(gs)),
{
    let n = gs.players.len();
    let ghost target = pp_rows(old(gs).players@, 0, n as int, old(gs).map.physics);
    let mut i: usize = 0;
    while i < n
        invariant
            n == gs.players@.len(),
            i <= n,
            gs.map.physics.wf(),
            pp_rows(gs.players@, i as int, n as int, gs.map.physics) == target,
            players_ok(gs.players@),
            same_but_bodies(old(gs).players@, gs.players@),
            (GameState { players: gs.players, ..*old(gs) }) == *gs,
        decreases n - i,
    {
        let mut j: usize = i + 1;
        while j < n
            invariant
                n == gs.players@.len(),
                i < j <= n,
                gs.map.physics.wf(),
                pp_rows(pp_row(gs.players@, i as int, j as int, n as int, gs.map.physics), i + 1, n as int, gs.map.physics)
                    == target,
                players_ok(gs.players@),
                same_but_bodies(old(gs).players@, gs.players@),
                (GameState { players: gs.players, ..*old(gs) }) == *gs,
            decreases n - j,
        {
            let ghost before = gs.players@;
            if gs.players[i].status.is_playing() && gs.players[j].status.is_playing() {
                let phys = gs.map.physics;
                proof {
                    assert(player_ok(gs.players@[i as int]));
                    assert(player_ok(gs.players@[j as int]));
                }
                let r = resolve_circle_circle(
                    gs.players[i].body,
                    gs.players[j].body,
                    phys.player_radius,
                    phys.player_mass,
                    phys.player_radius,
                    phys.player_mass,
                    phys.player_bounciness,
                );
                gs.players[i].body = r.0;
                gs.players[j].body = r.1;
            }
            proof {
                assert(gs.players@ =~= pp_pair(before, i as int, j as int, gs.map.physics));
                assert forall|x: int| 0 <= x < gs.players@.len() implies player_ok(#[trigger] gs.players@[x]) by {
                    assert(player_ok(before[x]));
                }
                assert forall|x: int| 0 <= x < gs.players@.len() implies (Player {
                    body: gs.players@[x].body,
                    ..old(gs).players@[x]
                }) == #[trigger] gs.players@[x] by {
                    assert((Player { body: before[x].body, ..old(gs).players@[x] }) == before[x]);
                }
            }
            j += 1;
        }
        i += 1;
    }
    proof {
        lemma_same_but_bodies_ids(old(gs).players@, gs.players@);
    }
}

/// The ids of a list of player ids, as character sequences.
pub open spec fn ids_view(v: Seq<String>) -> Seq<Seq<char>> {
    v.map_values(|h: String| h@)
}

/// Players, snowballs and the ids of hit players after player `i` meets
/// snowball `k`: a playing player that overlaps the snowball is hit, and the
/// overlap is resolved with the snowball's bounciness.
pub open spec fn ps_pair(
    st: (Seq<Player>, Seq<Snowball>, Seq<Seq<char>>),
    i: int,
    k: int,
    phys: PhysicsSettings,
) -> (Seq<Player>, Seq<Snowball>, Seq<Seq<char>>) {
    let p = st.0[i];
    let sb = st.1[k];
    if p.status is Playing {
        let r = resolve_spec(
            p.body,
            sb.body,
            phys.player_radius as int,
            phys.player_mass as int,
            phys.snowball_radius as int,
            phys.snowball_mass as int,
            phys.snowball_bounciness as int,
        );
        let hit = resolvable(p.body, sb.body, phys.player_radius as int, phys.snowball_radius as int);
        (
            st.0.update(i, Player { body: r.0, ..p }),
            st.1.update(k, Snowball { body: r.1, ..sb }),
            if hit {
                st.2.push(p.id@)
            } else {
                st.2
            },
        )
    } else {
        st
    }
}

/// The state after player `i` met snowballs `0..k`.
pub open spec fn ps_row(
    st: (Seq<Player>, Seq<Snowball>, Seq<Seq<char>>),
    i: int,
    k: int,
    phys: PhysicsSettings,
) -> (Seq<Player>, Seq<Snowball>, Seq<Seq<char>>)
    decreases k,
{
    if k <= 0 {
        st
    } else {
        ps_pair(ps_row(st, i, k - 1, phys), i, k - 1, phys)
    }
}

/// The state after players `0..i` met every snowball, player by player.
pub open spec fn ps_rows(
    st: (Seq<Player>, Seq<Snowball>, Seq<Seq<char>>),
    i: int,
    m: int,
    phys: PhysicsSettings,
) -> (Seq<Player>, Seq<Snowball>, Seq<Seq<char>>)
    decreases i,
{
    if i <= 0 {
        st
    } else {
        ps_row(ps_rows(st, i - 1, m, phys), i - 1, m, phys)
    }
}

/// Every snowball within bounds, with an id below `next_id`.
pub open spec fn snowballs_ok(sbs: Seq<Snowball>, next_id: u64) -> bool {
    forall|j: int| 0 <= j < sbs.len() ==> (#[trigger] sbs[j]).body.bounded() && sbs[j].id < next_id
}

/// Same snowballs, but for their bodies.
pub open spec fn same_snowballs_but_bodies(a: Seq<Snowball>, b: Seq<Snowball>) -> bool {
    a.len() == b.len() && forall|j: int| 0 <= j < a.len() ==> (Snowball { body: b[j].body, ..a[j] }) == #[trigger] b[j]
}

/// `b` is `a` after the player-snowball pass, which found the hits `hits`.
pub open spec fn ps_post(a: GameState, b: GameState, hits: Seq<String>) -> bool {
    &&& (({
            let r = ps_rows(
                (a.players@, a.snowballs@, Seq::empty()),
                a.players@.len() as int,
                a.snowballs@.len() as int,
                a.map.physics,
            );
            b.players@ == r.0 && b.snowballs@ == r.1 && ids_view(hits) == r.2
        }))
    &&& (same_but_bodies(a.players@, b.players@))
    &&& (same_snowballs_but_bodies(a.snowballs@, b.snowballs@))
    &&& ((GameState { players: b.players, snowballs: b.snowballs, ..a }) == b)
}

/// Resolves every overlap between a playing player and a snowball, player
/// by player, and lists the players hit (once per contact).
pub fn simulate_player_snowball_collisions(gs: &mut GameState) -> (hits: Vec<String>)
    requires
        old(gs).wf(),
    ensures
        final(gs).wf(),
        ps_post(*old(gs), *final(gs), hits@),
{
    let n = gs.players.len();
    let m = gs.snowballs.len();
    let mut hits: Vec<String> = Vec::new();
    let ghost start = (old(gs).players@, old(gs).snowballs@, Seq::<Seq<char>>::empty());
    proof {
        assert(ids_view(hits@) =~= Seq::<Seq<char>>::empty());
    }
    let mut i: usize = 0;
    while i < n
        invariant
            n == gs.players@.len(),
            m == gs.snowballs@.len(),
            i <= n,
            gs.map.physics.wf(),
            ps_rows(start, i as int, m as int, gs.map.physics) == (gs.players@, gs.snowballs@, ids_view(hits@)),
            players_ok(gs.players@),
            same_but_bodies(old(gs).players@, gs.players@),
            snowballs_ok(gs.snowballs@, gs.next_snowball_id),
            same_snowballs_but_bodies(old(gs).snowballs@, gs.snowballs@),
            (GameState { players: gs.players, snowballs: gs.snowballs, ..*old(gs) }) == *gs,
        decreases n - i,
    {
        let mut k: usize = 0;
        while k < m
            invariant
                n == gs.players@.len(),
                m == gs.snowballs@.len(),
                i < n,
                k <= m,
                gs.map.physics.wf(),
                ps_row(ps_rows(start, i as int, m as int, gs.map.physics), i as int, k as int, gs.map.physics) == (
                    gs.players@,
                    gs.snowballs@,
                    ids_view(hits@),
                ),
                players_ok(gs.players@),
                same_but_bodies(old(gs).players@, gs.players@),
                snowballs_ok(gs.snowballs@, gs.next_snowball_id),
                same_snowballs_but_bodies(old(gs).snowballs@, gs.snowballs@),
                (GameState { players: gs.players, snowballs: gs.snowballs, ..*old(gs) }) == *gs,
            decreases m - k,
        {
            let ghost before = (gs.players@, gs.snowballs@, ids_view(hits@));
            if gs.players[i].status.is_playing() {
                let phys = gs.map.physics;
                proof {
                    assert(player_ok(gs.players@[i as int]));
                    assert(gs.snowballs@[k as int].body.bounded());
                }
                let pb = gs.players[i].body;
                let sb = gs.snowballs[k].body;
                let r = resolve_circle_circle(
                    pb,
                    sb,
                    phys.player_radius,
                    phys.player_mass,
                    phys.snowball_radius,
                    phys.snowball_mass,
                    phys.snowball_bounciness,
                );
                if is_contact(pb, sb, phys.player_radius, phys.snowball_radius) {
                    let id = gs.players[i].id.clone();
                    hits.push(id);
                }
                gs.players[i].body = r.0;
                gs.snowballs[k].body = r.1;
            }
            proof {
                let after = ps_pair(before, i as int, k as int, gs.map.physics);
                assert(gs.players@ =~= after.0);
                assert(gs.snowballs@ =~= after.1);
                assert(ids_view(hits@) =~= after.2);
                assert forall|x: int| 0 <= x < gs.players@.len() implies player_ok(#[trigger] gs.players@[x]) by {
                    assert(player_ok(before.0[x]));
                }
                assert forall|x: int| 0 <= x < gs.players@.len() implies (Player {
                    body: gs.players@[x].body,
                    ..old(gs).players@[x]
                }) == #[trigger] gs.players@[x] by {
                    assert((Player { body: before.0[x].body, ..old(gs).players@[x] }) == before.0[x]);
                }
                assert forall|x: int| 0 <= x < gs.snowballs@.len() implies (Snowball {
                    body: gs.snowballs@[x].body,
                    ..old(gs).snowballs@[x]
                }) == #[trigger] gs.snowballs@[x] by {
                    assert((Snowball { body: before.1[x].body, ..old(gs).snowballs@[x] }) == before.1[x]);
                }
                assert forall|x: int| 0 <= x < gs.snowballs@.len() implies (#[trigger] gs.snowballs@[x]).body.bounded()
                    && gs.snowballs@[x].id < gs.next_snowball_id by {
                    assert(before.1[x].body.bounded() && before.1[x].id < gs.next_snowball_id);
                }
            }
            k += 1;
        }
        i += 1;
    }
    proof {
        lemma_same_but_bodies_ids(old(gs).players@, gs.players@);
    }
    hits
}

/// Whether two circles overlap with distinct centers.
pub fn is_contact(a: Body, b: Body, ra: i64, rb: i64) -> (r: bool)
    requires
        a.bounded(),
        b.bounded(),
        0 < ra <= LIMIT,
        0 < rb <= LIMIT,
    ensures
        r == resolvable(a, b, ra as int, rb as int),
{
    let dx: i128 = b.pos.x as i128 - a.pos.x as i128;
    let dy: i128 = b.pos.y as i128 - a.pos.y as i128;
    proof {
        lemma_mul_abs_le(dx as int, dx as int, 2 * LIMIT, 2 * LIMIT);
        lemma_mul_abs_le(dy as int, dy as int, 2 * LIMIT, 2 * LIMIT);
        lemma_square_nonneg(dx as int);
        lemma_square_nonneg(dy as int);
    }
    let d2: i128 = dx * dx + dy * dy;
    let dist = isqrt(d2 as u128);
    proof {
        lemma_sqrt_floor_unique(d2 as int, dist as int);
    }
    0 < dist && (dist as i128) < ra as i128 + rb as i128
}

/// An optional id as a character sequence.
pub open spec fn opt_view(o: Option<String>) -> Option<Seq<char>> {
    match o {
        Some(t) => Some(t@),
        None => None,
    }
}

/// Players, the ball and its first toucher after player `i` meets the ball:
/// a playing player that overlaps it touches it (the first to do so is
/// kept), and the overlap is resolved with the ball's bounciness.
pub open spec fn bp_step(st: (Seq<Player>, Body, Option<Seq<char>>), i: int, phys: PhysicsSettings) -> (
    Seq<Player>,
    Body,
    Option<Seq<char>>,
) {
    let p = st.0[i];
    if p.status is Playing {
        let r = resolve_spec(
            p.body,
            st.1,
            phys.player_radius as int,
            phys.player_mass as int,
            phys.ball_radius as int,
            phys.ball_mass as int,
            phys.ball_bounciness as int,
        );
        let touch = resolvable(p.body, st.1, phys.player_radius as int, phys.ball_radius as int);
        (
            st.0.update(i, Player { body: r.0, ..p }),
            r.1,
            if st.2.is_none() && touch {
                Some(p.id@)
            } else {
                st.2
            },
        )
    } else {
        st
    }
}

pub open spec fn bp_fold(st: (Seq<Player>, Body, Option<Seq<char>>), i: int, phys: PhysicsSettings) -> (
    Seq<Player>,
    Body,
    Option<Seq<char>>,
)
    decreases i,
{
    if i <= 0 {
        st
    } else {
        bp_step(bp_fold(st, i - 1, phys), i - 1, phys)
    }
}

/// Snowballs and the ball after snowball `k` meets the ball.
pub open spec fn bs_step(st: (Seq<Snowball>, Body), k: int, phys: PhysicsSettings) -> (Seq<Snowball>, Body) {
    let sb = st.0[k];
    let r = resolve_spec(
        sb.body,
        st.1,
        phys.snowball_radius as int,
        phys.snowball_mass as int,
        phys.ball_radius as int,
        phys.ball_mass as int,
        phys.ball_bounciness as int,
    );
    (st.0.update(k, Snowball { body: r.0, ..sb }), r.1)
}

pub open spec fn bs_fold(st: (Seq<Snowball>, Body), k: int, phys: PhysicsSettings) -> (Seq<Snowball>, Body)
    decreases k,
{
    if k <= 0 {
        st
    } else {
        bs_step(bs_fold(st, k - 1, phys), k - 1, phys)
    }
}

/// `b` is `a` after the ball pass, whose first toucher is `touched`.
pub open spec fn ball_post(a: GameState, b: GameState, touched: Option<String>) -> bool {
    &&& (match a.ball {
            None => b == a && touched.is_none(),
            Some(ball) => {
                let pl = bp_fold((a.players@, ball.body, None), a.players@.len() as int, a.map.physics);
                let sn = bs_fold((a.snowballs@, pl.1), a.snowballs@.len() as int, a.map.physics);
                &&& b.players@ == pl.0
                &&& b.snowballs@ == sn.0
                &&& same_but_bodies(a.players@, b.players@)
                &&& same_snowballs_but_bodies(a.snowballs@, b.snowballs@)
                &&& b.ball == Some(Ball { body: sn.1 })
                &&& opt_view(touched) == pl.2
                &&& (GameState { players: b.players, snowballs: b.snowballs, ball: b.ball, ..a }) == b
            },
        })
}

/// Resolves the ball against every playing player, then every snowball, and
/// names the first player to touch it. Without a ball nothing happens.
pub fn simulate_ball_collisions(gs: &mut GameState) -> (touched: Option<String>)
    requires
        old(gs).wf(),
    ensures
        final(gs).wf(),
        ball_post(*old(gs), *final(gs), touched),
{
    let mut ball = match gs.ball {
        Some(b) => b.body,
        None => {
            return None;
        },
    };
    let ghost start_ball = ball;
    let n = gs.players.len();
    let mut touched: Option<String> = None;
    let mut i: usize = 0;
    while i < n
        invariant
            n == gs.players@.len(),
            i <= n,
            gs.map.physics.wf(),
            ball.bounded(),
            ({
                let st = bp_fold((old(gs).players@, start_ball, None), i as int, gs.map.physics);
                &&& st.0 == gs.players@
                &&& st.1 == ball
                &&& opt_view(touched) == st.2
            }),
            players_ok(gs.players@),
            same_but_bodies(old(gs).players@, gs.players@),
            (GameState { players: gs.players, ..*old(gs) }) == *gs,
        decreases n - i,
    {
        let ghost before = (gs.players@, ball, opt_view(touched));
        if gs.players[i].status.is_playing() {
            let phys = gs.map.physics;
            proof {
                assert(player_ok(gs.players@[i as int]));
            }
            let pb = gs.players[i].body;
            let r = resolve_circle_circle(
                pb,
                ball,
                phys.player_radius,
                phys.player_mass,
                phys.ball_radius,
                phys.ball_mass,
                phys.ball_bounciness,
            );
            if touched.is_none() && is_contact(pb, ball, phys.player_radius, phys.ball_radius) {
                touched = Some(gs.players[i].id.clone());
            }
            gs.players[i].body = r.0;
            ball = r.1;
        }
        proof {
            let after = bp_step(before, i as int, gs.map.physics);
            assert(gs.players@ =~= after.0);
            assert forall|x: int| 0 <= x < gs.players@.len() implies player_ok(#[trigger] gs.players@[x]) by {
                assert(player_ok(before.0[x]));
            }
            assert forall|x: int| 0 <= x < gs.players@.len() implies (Player {
                body: gs.players@[x].body,
                ..old(gs).players@[x]
            }) == #[trigger] gs.players@[x] by {
                assert((Player { body: before.0[x].body, ..old(gs).players@[x] }) == before.0[x]);
            }
        }
        i += 1;
    }
    proof {
        lemma_same_but_bodies_ids(old(gs).players@, gs.players@);
    }
    let ghost mid_ball = ball;
    let ghost mid = *gs;
    let m = gs.snowballs.len();
    let mut k: usize = 0;
    while k < m
        invariant
            m == gs.snowballs@.len(),
            k <= m,
            gs.map.physics.wf(),
            ball.bounded(),
            bs_fold((old(gs).snowballs@, mid_ball), k as int, gs.map.physics) == (gs.snowballs@, ball),
            snowballs_ok(gs.snowballs@, gs.next_snowball_id),
            same_snowballs_but_bodies(old(gs).snowballs@, gs.snowballs@),
            same_but_bodies(old(gs).players@, gs.players@),
            (GameState { snowballs: gs.snowballs, ..mid }) == *gs,
            (GameState { players: mid.players, ..*old(gs) }) == mid,
            players_ok(gs.players@),
            ids_unique(gs.players@),
            ({
                let st = bp_fold((old(gs).players@, start_ball, None), n as int, gs.map.physics);
                &&& st.0 == gs.players@
                &&& st.1 == mid_ball
                &&& opt_view(touched) == st.2
            }),
            old(gs).ball == Some(Ball { body: start_ball }),
            gs.map.wf(),
        decreases m - k,
    {
        let ghost before = (gs.snowballs@, ball);
        let phys = gs.map.physics;
        proof {
            assert(gs.snowballs@[k as int].body.bounded());
        }
        let r = resolve_circle_circle(
            gs.snowballs[k].body,
            ball,
            phys.snowball_radius,
            phys.snowball_mass,
            phys.ball_radius,
            phys.ball_mass,
            phys.ball_bounciness,
        );
        gs.snowballs[k].body = r.0;
        ball = r.1;
        proof {
            let after = bs_step(before, k as int, gs.map.physics);
            assert(gs.snowballs@ =~= after.0);
            assert forall|x: int| 0 <= x < gs.snowballs@.len() implies (Snowball {
                body: gs.snowballs@[x].body,
                ..old(gs).snowballs@[x]
            }) == #[trigger] gs.snowballs@[x] by {
                assert((Snowball { body: before.0[x].body, ..old(gs).snowballs@[x] }) == before.0[x]);
            }
            assert forall|x: int| 0 <= x < gs.snowballs@.len() implies (#[trigger] gs.snowballs@[x]).body.bounded()
                && gs.snowballs@[x].id < gs.next_snowball_id by {
                assert(before.0[x].body.bounded() && before.0[x].id < gs.next_snowball_id);
            }
        }
        k += 1;
    }
    gs.ball = Some(Ball { body: ball });
    touched
}

/// What one tick of collisions reports to the mode's rules.
#[derive(Clone, Debug)]
pub struct SimulateCollisionResponse {
    /// Playing players that are in a hole, in player order.
    pub players_in_holes: Vec<String>,
    /// Snowballs that are in a hole, in snowball order.
    pub snowballs_in_holes: Vec<u64>,
    /// The team owning a goal that the ball is in (the last such goal).
    pub ball_in_goal_of_team: Option<Team>,
    /// The first player to touch the ball.
    pub ball_touched_by_player: Option<String>,
    /// Players hit by a snowball, once per contact.
    pub players_hit_by_snowball: Vec<String>,
}

/// A playing player after meeting the map.
pub open spec fn player_vs_map(p: Player, map: GameMap) -> (Player, bool) {
    match p.status {
        PlayerStatus::Playing(t) => {
            let r = terrain_fold(
                p.body,
                map.physics.player_radius as int,
                map.objects@,
                map.objects@.len() as int,
                BodyKind::Player(t),
            );
            (Player { body: r.0, ..p }, r.1)
        },
        PlayerStatus::Spectator => (p, false),
    }
}

/// A snowball after meeting the map.
pub open spec fn snowball_vs_map(sb: Snowball, map: GameMap) -> (Snowball, bool) {
    let r = terrain_fold(
        sb.body,
        map.physics.snowball_radius as int,
        map.objects@,
        map.objects@.len() as int,
        BodyKind::Snowball,
    );
    (Snowball { body: r.0, ..sb }, r.1)
}

/// Ids of players `0..k` that end up in a hole.
pub open spec fn holed_players(ps: Seq<Player>, k: int, map: GameMap) -> Seq<Seq<char>>
    decreases k,
{
    if k <= 0 {
        Seq::empty()
    } else if player_vs_map(ps[k - 1], map).1 {
        holed_players(ps, k - 1, map).push(ps[k - 1].id@)
    } else {
        holed_players(ps, k - 1, map)
    }
}

/// Ids of snowballs `0..k` that end up in a hole.
pub open spec fn holed_snowballs(sbs: Seq<Snowball>, k: int, map: GameMap) -> Seq<u64>
    decreases k,
{
    if k <= 0 {
        Seq::empty()
    } else if snowball_vs_map(sbs[k - 1], map).1 {
        holed_snowballs(sbs, k - 1, map).push(sbs[k - 1].id)
    } else {
        holed_snowballs(sbs, k - 1, map)
    }
}

/// The team of the last of goals `0..k` that a ball of radius `br` overlaps.
pub open spec fn goal_fold(b: Body, br: int, goals: Seq<GoalDef>, k: int) -> Option<Team>
    decreases k,
{
    if k <= 0 {
        None
    } else {
        let g = goals[k - 1];
        if circle_rect_overlap(b.pos.x as int, b.pos.y as int, br, g.x as int, g.y as int, g.w as int, g.h as int) {
            Some(g.team)
        } else {
            goal_fold(b, br, goals, k - 1)
        }
    }
}

/// The goal that the ball is in, on maps with goals.
pub open spec fn goal_of(b: Body, map: GameMap) -> Option<Team> {
    match map.football {
        Some(f) => goal_fold(b, map.physics.ball_radius as int, f.goals@, f.goals@.len() as int),
        None => None,
    }
}

fn find_goal(b: Body, br: i64, goals: &Vec<GoalDef>) -> (r: Option<Team>)
    requires
        b.bounded(),
        0 < br <= LIMIT,
        goals_wf(goals@),
    ensures
        r == goal_fold(b, br as int, goals@, goals@.len() as int),
{
    let mut k: usize = goals.len();
    while k > 0
        invariant
            k <= goals@.len(),
            0 < br <= LIMIT,
            b.bounded(),
            goals_wf(goals@),
            goal_fold(b, br as int, goals@, goals@.len() as int) == goal_fold(b, br as int, goals@, k as int),
        decreases k,
    {
        let g = goals[k - 1];
        proof {
            assert(goal_wf(goals@[k - 1]));
        }
        if circle_intersects_rect(b.pos.x, b.pos.y, br, g.x, g.y, g.w, g.h) {
            return Some(g.team);
        }
        k -= 1;
    }
    None
}

/// `b` is `a` after the map pass, which reported `r`.
pub open spec fn map_post(a: GameState, b: GameState, r: SimulateCollisionResponse) -> bool {
    &&& (b.players@.len() == a.players@.len())
    &&& (forall|i: int| 0 <= i < b.players@.len() ==> #[trigger] b.players@[i] == player_vs_map(
            a.players@[i],
            a.map,
        ).0)
    &&& (b.snowballs@.len() == a.snowballs@.len())
    &&& (forall|i: int| 0 <= i < b.snowballs@.len() ==> #[trigger] b.snowballs@[i] == snowball_vs_map(
            a.snowballs@[i],
            a.map,
        ).0)
    &&& (ids_view(r.players_in_holes@) == holed_players(a.players@, a.players@.len() as int, a.map))
    &&& (r.snowballs_in_holes@ == holed_snowballs(a.snowballs@, a.snowballs@.len() as int, a.map))
    &&& (match a.ball {
            Some(bl) => {
                let nb = terrain_fold(
                    bl.body,
                    a.map.physics.ball_radius as int,
                    a.map.objects@,
                    a.map.objects@.len() as int,
                    BodyKind::Ball,
                ).0;
                b.ball == Some(Ball { body: nb }) && r.ball_in_goal_of_team == goal_of(nb, a.map)
            },
            None => b.ball.is_none() && r.ball_in_goal_of_team.is_none(),
        })
    &&& (r.ball_touched_by_player.is_none())
    &&& (r.players_hit_by_snowball@.len() == 0)
    &&& ((GameState { players: b.players, snowballs: b.snowballs, ball: b.ball, ..a }) == b)
}

/// Meets every playing player, every snowball and the ball with the map,
/// and reports who is in a hole and which goal the ball is in.
pub fn simulate_map_collisions(gs: &mut GameState) -> (r: SimulateCollisionResponse)
    requires
        old(gs).wf(),
    ensures
        final(gs).wf(),
        map_post(*old(gs), *final(gs), r),
{
    let mut holed: Vec<String> = Vec::new();
    proof {
        assert(ids_view(holed@) =~= Seq::<Seq<char>>::empty());
    }
    let n = gs.players.len();
    let mut i: usize = 0;
    while i < n
        invariant
            n == gs.players@.len(),
            i <= n,
            gs.map.wf(),
            forall|j: int| 0 <= j < i ==> #[trigger] gs.players@[j] == player_vs_map(old(gs).players@[j], old(gs).map).0,
            forall|j: int| i <= j < n ==> #[trigger] gs.players@[j] == old(gs).players@[j],
            ids_view(holed@) == holed_players(old(gs).players@, i as int, old(gs).map),
            players_ok(gs.players@),
            same_but_bodies(old(gs).players@, gs.players@),
            (GameState { players: gs.players, ..*old(gs) }) == *gs,
        decreases n - i,
    {
        let ghost before = gs.players@;
        proof {
            assert(player_ok(gs.players@[i as int]));
        }
        match gs.players[i].status {
            PlayerStatus::Playing(t) => {
                let r = collide_with_map(gs.players[i].body, gs.map.physics.player_radius, &gs.map.objects, BodyKind::Player(t));
                gs.players[i].body = r.0;
                if r.1 {
                    let id = gs.players[i].id.clone();
                    holed.push(id);
                }
            },
            PlayerStatus::Spectator => {},
        }
        proof {
            assert(ids_view(holed@) =~= holed_players(old(gs).players@, i + 1, old(gs).map));
            assert forall|x: int| 0 <= x < gs.players@.len() implies player_ok(#[trigger] gs.players@[x]) by {
                assert(player_ok(before[x]));
            }
            assert forall|x: int| 0 <= x < gs.players@.len() implies (Player {
                body: gs.players@[x].body,
                ..old(gs).players@[x]
            }) == #[trigger] gs.players@[x] by {
                assert((Player { body: before[x].body, ..old(gs).players@[x] }) == before[x]);
            }
        }
        i += 1;
    }
    proof {
        lemma_same_but_bodies_ids(old(gs).players@, gs.players@);
    }
    let ghost mid = *gs;
    let ghost sb0 = gs.snowballs@;
    let mut sholed: Vec<u64> = Vec::new();
    let m = gs.snowballs.len();
    let mut k: usize = 0;
    while k < m
        invariant
            m == gs.snowballs@.len(),
            k <= m,
            gs.map.wf(),
            forall|j: int| 0 <= j < k ==> #[trigger] gs.snowballs@[j] == snowball_vs_map(old(gs).snowballs@[j], old(gs).map).0,
            forall|j: int| k <= j < m ==> #[trigger] gs.snowballs@[j] == old(gs).snowballs@[j],
            sholed@ == holed_snowballs(old(gs).snowballs@, k as int, old(gs).map),
            snowballs_ok(gs.snowballs@, gs.next_snowball_id),
            sb0 == old(gs).snowballs@,
            forall|j: int| 0 <= j < m ==> (#[trigger] sb0[j]).body.bounded() && sb0[j].id < gs.next_snowball_id,
            (GameState { snowballs: gs.snowballs, ..mid }) == *gs,
            (GameState { players: mid.players, ..*old(gs) }) == mid,
        decreases m - k,
    {
        proof {
            assert(sb0[k as int].body.bounded());
        }
        let r = collide_with_map(gs.snowballs[k].body, gs.map.physics.snowball_radius, &gs.map.objects, BodyKind::Snowball);
        gs.snowballs[k].body = r.0;
        if r.1 {
            sholed.push(gs.snowballs[k].id);
        }
        proof {
            assert(sholed@ =~= holed_snowballs(old(gs).snowballs@, k + 1, old(gs).map));
            assert forall|x: int| 0 <= x < gs.snowballs@.len() implies (#[trigger] gs.snowballs@[x]).body.bounded()
                && gs.snowballs@[x].id < gs.next_snowball_id by {
                assert(sb0[x].body.bounded() && sb0[x].id < gs.next_snowball_id);
            }
        }
        k += 1;
    }
    let mut goal: Option<Team> = None;
    if let Some(ball) = gs.ball {
        let br = gs.map.physics.ball_radius;
        let r = collide_with_map(ball.body, br, &gs.map.objects, BodyKind::Ball);
        gs.ball = Some(Ball { body: r.0 });
        if let Some(f) = &gs.map.football {
            goal = find_goal(r.0, br, &f.goals);
        }
    }
    SimulateCollisionResponse {
        players_in_holes: holed,
        snowballs_in_holes: sholed,
        ball_in_goal_of_team: goal,
        ball_touched_by_player: None,
        players_hit_by_snowball: Vec::new(),
    }
}

/// The passes of one tick of collisions from `a` to `b`, through the states
/// after each pass, and the report `r` that puts their findings together.
pub open spec fn collision_chain(
    a: GameState,
    s1: GameState,
    s2: GameState,
    s3: GameState,
    hits: Seq<String>,
    touched: Option<String>,
    found: SimulateCollisionResponse,
    b: GameState,
    r: SimulateCollisionResponse,
) -> bool {
    &&& pp_post(a, s1)
    &&& ps_post(s1, s2, hits)
    &&& ball_post(s2, s3, touched)
    &&& map_post(s3, b, found)
    &&& r.players_in_holes == found.players_in_holes
    &&& r.snowballs_in_holes == found.snowballs_in_holes
    &&& r.ball_in_goal_of_team == found.ball_in_goal_of_team
    &&& r.ball_touched_by_player == touched
    &&& r.players_hit_by_snowball@ == hits
}

/// `b` and `r` after one tick of collisions from `a`.
pub open spec fn collided_post(a: GameState, b: GameState, r: SimulateCollisionResponse) -> bool {
    &&& exists|
        s1: GameState,
        s2: GameState,
        s3: GameState,
        hits: Seq<String>,
        touched: Option<String>,
        found: SimulateCollisionResponse,
    | #[trigger] collision_chain(a, s1, s2, s3, hits, touched, found, b, r)
    &&& (b.map == a.map)
    &&& (b.scores == a.scores)
    &&& (b.phase == a.phase)
    &&& (b.timer == a.timer)
    &&& (b.paused == a.paused)
    &&& (b.player_with_active_action == a.player_with_active_action)
    &&& (b.next_snowball_id == a.next_snowball_id)
    &&& (b.game_mode == a.game_mode)
    &&& (b.action_target_time == a.action_target_time)
    &&& (b.players@.len() == a.players@.len())
    &&& (forall|i: int| 0 <= i < b.players@.len() ==> (#[trigger] b.players@[i]).id == a.players@[i].id
            && b.players@[i].status == a.players@[i].status)
    &&& (b.snowballs@.len() == a.snowballs@.len())
    &&& (forall|i: int| 0 <= i < b.snowballs@.len() ==> (#[trigger] b.snowballs@[i]).id == a.snowballs@[i].id)
}

/// One tick of collisions, in order: player with player, player with
/// snowball, the ball with players and snowballs, then every body with the
/// map and the ball with the goals.
pub fn simulate_collisions(gs: &mut GameState) -> (r: SimulateCollisionResponse)
    requires
        old(gs).wf(),
    ensures
        final(gs).wf(),
        collided_post(*old(gs), *final(gs), r),
{
    simulate_player_player_collisions(gs);
    let ghost s1 = *gs;
    let hits = simulate_player_snowball_collisions(gs);
    let ghost s2 = *gs;
    let ghost hv = hits@;
    let touched = simulate_ball_collisions(gs);
    let ghost s3 = *gs;
    let ghost tv = touched;
    let found = simulate_map_collisions(gs);
    let ghost fv = found;
    let r = SimulateCollisionResponse {
        players_in_holes: found.players_in_holes,
        snowballs_in_holes: found.snowballs_in_holes,
        ball_in_goal_of_team: found.ball_in_goal_of_team,
        ball_touched_by_player: touched,
        players_hit_by_snowball: hits,
    };
    proof {
        assert(collision_chain(*old(gs), s1, s2, s3, hv, tv, fv, *gs, r));
    }
    r
}

} // verus!
