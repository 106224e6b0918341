use vstd::prelude::*;

use crate::collide::{bounce_circle, bounce_circle_spec, bounce_rect, bounce_rect_spec};
use crate::geom::{circle_intersects_circle, circle_intersects_rect, circle_rect_overlap, circles_overlap, LIMIT};
use crate::mask::{matches_ball, matches_player, matches_snowball, player_tag, CollisionMaskTag, Team};
use crate::model::{Body, MapObject};

verus! {

/// The kind of a moving body, as map objects' masks name them.
#[derive(Clone, Copy, Debug, PartialEq, Eq, Structural)]
pub enum BodyKind {
    Ball,
    Snowball,
    Player(Team),
}

/// The mask tag of a kind of body.
pub open spec fn tag_of(kind: BodyKind) -> CollisionMaskTag {
    match kind {
        BodyKind::Ball => CollisionMaskTag::Ball,
        BodyKind::Snowball => CollisionMaskTag::Snowball,
        BodyKind::Player(t) => player_tag(t),
    }
}

/// Whether a body of radius `br` overlaps the object.
pub open spec fn touches(obj: MapObject, b: Body, br: int) -> bool {
    match obj {
        MapObject::Circle { x, y, radius, .. } => circles_overlap(
            b.pos.x as int,
            b.pos.y as int,
            br,
            x as int,
            y as int,
            radius as int,
        ),
        MapObject::Rect { x, y, w, h, .. } => circle_rect_overlap(
            b.pos.x as int,
            b.pos.y as int,
            br,
            x as int,
            y as int,
            w as int,
            h as int,
        ),
    }
}

/// A body, and whether it is in a hole, after meeting one map object. An
/// object acts only on the kinds its mask lists and only when it overlaps
/// the body's position `start` at the beginning of the map pass, so that
/// what a body touches does not depend on the order of the objects. A hole
/// holds players and snowballs and leaves the ball alone; a solid object
/// bounces the body off.
pub open spec fn object_step(st: (Body, bool), start: Body, obj: MapObject, br: int, kind: BodyKind) -> (Body, bool) {
    if !obj.mask_of().contains(tag_of(kind)) || !touches(obj, start, br) {
        st
    } else if obj.hole() {
        if kind is Ball {
            st
        } else {
            (st.0, true)
        }
    } else {
        match obj {
            MapObject::Circle { x, y, radius, factor, .. } => (
                bounce_circle_spec(st.0, br, x as int, y as int, radius as int, factor as int),
                st.1,
            ),
            MapObject::Rect { x, y, w, h, factor, .. } => (
                bounce_rect_spec(st.0, br, x as int, y as int, w as int, h as int, factor as int, kind is Player),
                st.1,
            ),
        }
    }
}

/// A body after meeting map objects `0..k` in order.
pub open spec fn terrain_fold(b: Body, br: int, objs: Seq<MapObject>, k: int, kind: BodyKind) -> (Body, bool)
    decreases k,
{
    if k <= 0 {
        (b, false)
    } else {
        object_step(terrain_fold(b, br, objs, k - 1, kind), b, objs[k - 1], br, kind)
    }
}

/// Whether one of map objects `0..k` is a hole whose mask lists `kind` and
/// that overlaps a body at `b` of radius `br`.
pub open spec fn overlaps_hole(b: Body, br: int, objs: Seq<MapObject>, k: int, kind: BodyKind) -> bool {
    exists|i: int|
        0 <= i < k && (#[trigger] objs[i]).hole() && objs[i].mask_of().contains(tag_of(kind)) && touches(objs[i], b, br)
}

/// A player or snowball ends the map pass in a hole exactly when its
/// position at the start of the pass overlaps a hole whose mask lists it;
/// the ball never does.
pub proof fn lemma_in_hole_iff_overlap(b: Body, br: int, objs: Seq<MapObject>, k: int, kind: BodyKind)
    requires
        0 <= k <= objs.len(),
    ensures
        terrain_fold(b, br, objs, k, kind).1 == (!(kind is Ball) && overlaps_hole(b, br, objs, k, kind)),
    decreases k,
{
    if k > 0 {
        lemma_in_hole_iff_overlap(b, br, objs, k - 1, kind);
        if overlaps_hole(b, br, objs, k - 1, kind) {
            let i = choose|i: int|
                0 <= i < k - 1 && (#[trigger] objs[i]).hole() && objs[i].mask_of().contains(tag_of(kind)) && touches(
                    objs[i],
                    b,
                    br,
                );
            assert(0 <= i < k);
        }
        if overlaps_hole(b, br, objs, k, kind) && !overlaps_hole(b, br, objs, k - 1, kind) {
            let i = choose|i: int|
                0 <= i < k && (#[trigger] objs[i]).hole() && objs[i].mask_of().contains(tag_of(kind)) && touches(
                    objs[i],
                    b,
                    br,
                );
            assert(i == k - 1);
        }
    }
}

fn mask_matches(obj: &MapObject, kind: BodyKind) -> (r: bool)
    ensures
        r == obj.mask_of().contains(tag_of(kind)),
{
    let mask = match obj {
        MapObject::Circle { mask, .. } => mask,
        MapObject::Rect { mask, .. } => mask,
    };
    match kind {
        BodyKind::Ball => matches_ball(mask),
        BodyKind::Snowball => matches_snowball(mask),
        BodyKind::Player(t) => matches_player(mask, t),
    }
}

/// Meets a body of radius `br` with every map object, in order; answers the
/// body after bounces and whether it is in a hole. Overlaps are tested
/// against the body where it stood when the pass began.
pub fn collide_with_map(b: Body, br: i64, objs: &Vec<MapObject>, kind: BodyKind) -> (r: (Body, bool))
    requires
        b.bounded(),
        0 < br <= LIMIT,
        forall|i: int| 0 <= i < objs@.len() ==> (#[trigger] objs@[i]).wf(),
    ensures
        r == terrain_fold(b, br as int, objs@, objs@.len() as int, kind),
        r.1 == (!(kind is Ball) && overlaps_hole(b, br as int, objs@, objs@.len() as int, kind)),
        r.0.bounded(),
{
    proof {
        lemma_in_hole_iff_overlap(b, br as int, objs@, objs@.len() as int, kind);
    }
    let mut cur = b;
    let mut in_hole = false;
    let mut k: usize = 0;
    while k < objs.len()
        invariant
            k <= objs@.len(),
            0 < br <= LIMIT,
            forall|i: int| 0 <= i < objs@.len() ==> (#[trigger] objs@[i]).wf(),
            (cur, in_hole) == terrain_fold(b, br as int, objs@, k as int, kind),
            cur.bounded(),
            b.bounded(),
        decreases objs@.len() - k,
    {
        let obj = &objs[k];
        proof {
            assert(obj.wf());
        }
        if mask_matches(obj, kind) {
            match obj {
                MapObject::Circle { x, y, radius, factor, is_hole, .. } => {
                    if circle_intersects_circle(b.pos.x, b.pos.y, br, *x, *y, *radius) {
                        if *is_hole {
                            if kind != BodyKind::Ball {
                                in_hole = true;
                            }
                        } else {
                            cur = bounce_circle(cur, br, *x, *y, *radius, *factor);
                        }
                    }
                },
                MapObject::Rect { x, y, w, h, factor, is_hole, .. } => {
                    if circle_intersects_rect(b.pos.x, b.pos.y, br, *x, *y, *w, *h) {
                        if *is_hole {
                            if kind != BodyKind::Ball {
                                in_hole = true;
                            }
                        } else {
                            let least_axis = match kind {
                                BodyKind::Player(_) => true,
                                _ => false,
                            };
                            cur = bounce_rect(cur, br, *x, *y, *w, *h, *factor, least_axis);
                        }
                    }
                },
            }
        }
        k += 1;
    }
    (cur, in_hole)
}

} // verus!
