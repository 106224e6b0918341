use vstd::prelude::*;

use crate::geom::{
    abs, clamp, div_toward_zero, div_tz, isqrt, lemma_mul_abs_le, lemma_square_nonneg, limit, Vec2,
    LIMIT, PERMILLE,
};
use crate::model::{Body, FACTOR_MAX};
use crate::physics::{lemma_div_tz_abs_le, lemma_sqrt_floor_unique, sqrt_floor};

verus! {

/// `v` held within the kinematic bound.
pub open spec fn lim(v: int) -> i64 {
    clamp(v, -LIMIT as int, LIMIT as int) as i64
}

/// `v` reflected about the direction `(nx, ny)` and scaled along it by
/// `factor` thousandths: `v - 2 (v . n) n factor` with `n` the unit normal.
/// A zero direction leaves `v` as it is.
pub open spec fn reflect_spec(v: Vec2, nx: int, ny: int, factor: int) -> Vec2 {
    let nn = nx * nx + ny * ny;
    if nn == 0 {
        v
    } else {
        let dot = v.x * nx + v.y * ny;
        Vec2 {
            x: lim(v.x - div_tz(2 * dot * nx * factor, nn * PERMILLE)),
            y: lim(v.y - div_tz(2 * dot * ny * factor, nn * PERMILLE)),
        }
    }
}

/// `p` moved by `amount` along the direction `(nx, ny)`; a zero direction
/// leaves it as it is.
pub open spec fn push_spec(p: Vec2, nx: int, ny: int, amount: int) -> Vec2 {
    let len = sqrt_floor((nx * nx + ny * ny) * 1_000_000);
    if len == 0 {
        p
    } else {
        Vec2 {
            x: lim(p.x + div_tz(nx * amount * PERMILLE, len)),
            y: lim(p.y + div_tz(ny * amount * PERMILLE, len)),
        }
    }
}

/// Whether a component is small enough for the products of the resolver.
pub open spec fn small(v: int) -> bool {
    abs(v) <= 0x2_0000_0000
}

fn reflect(v: Vec2, nx: i128, ny: i128, factor: i64) -> (r: Vec2)
    requires
        v.bounded(),
        small(nx as int),
        small(ny as int),
        0 <= factor <= FACTOR_MAX,
    ensures
        r == reflect_spec(v, nx as int, ny as int, factor as int),
        r.bounded(),
{
    proof {
        lemma_mul_abs_le(nx as int, nx as int, 0x2_0000_0000, 0x2_0000_0000);
        lemma_mul_abs_le(ny as int, ny as int, 0x2_0000_0000, 0x2_0000_0000);
        lemma_square_nonneg(nx as int);
        lemma_square_nonneg(ny as int);
    }
    let nn: i128 = nx * nx + ny * ny;
    if nn == 0 {
        return v;
    }
    proof {
        lemma_mul_abs_le(v.x as int, nx as int, 0x8000_0000, 0x2_0000_0000);
        lemma_mul_abs_le(v.y as int, ny as int, 0x8000_0000, 0x2_0000_0000);
    }
    let dot: i128 = v.x as i128 * nx + v.y as i128 * ny;
    proof {
        lemma_mul_abs_le(2 * dot, nx as int, 0x4_0000_0000_0000_0000, 0x2_0000_0000);
        lemma_mul_abs_le(2 * dot, ny as int, 0x4_0000_0000_0000_0000, 0x2_0000_0000);
        lemma_mul_abs_le(2 * dot * nx, factor as int, 0x8_0000_0000_0000_0000_0000_0000, 4000);
        lemma_mul_abs_le(2 * dot * ny, factor as int, 0x8_0000_0000_0000_0000_0000_0000, 4000);
        assert(nn * PERMILLE > 0);
    }
    let den: i128 = nn * PERMILLE as i128;
    let cx = div_toward_zero(2 * dot * nx * factor as i128, den);
    let cy = div_toward_zero(2 * dot * ny * factor as i128, den);
    proof {
        lemma_div_tz_abs_le(2 * dot * nx * factor, den as int);
        lemma_div_tz_abs_le(2 * dot * ny * factor, den as int);
    }
    Vec2 { x: limit(v.x as i128 - cx), y: limit(v.y as i128 - cy) }
}

fn push(p: Vec2, nx: i128, ny: i128, amount: i128) -> (r: Vec2)
    requires
        p.bounded(),
        small(nx as int),
        small(ny as int),
        0 <= amount <= 2 * LIMIT,
    ensures
        r == push_spec(p, nx as int, ny as int, amount as int),
        r.bounded(),
{
    proof {
        lemma_mul_abs_le(nx as int, nx as int, 0x2_0000_0000, 0x2_0000_0000);
        lemma_mul_abs_le(ny as int, ny as int, 0x2_0000_0000, 0x2_0000_0000);
        lemma_square_nonneg(nx as int);
        lemma_square_nonneg(ny as int);
        lemma_mul_abs_le(nx * nx + ny * ny, 1_000_000, 0x8_0000_0000_0000_0000, 1_000_000);
        lemma_square_nonneg(nx * nx + ny * ny);
    }
    let nn: i128 = (nx * nx + ny * ny) * 1_000_000;
    let len_u = isqrt(nn as u128);
    proof {
        lemma_sqrt_floor_unique(nn as int, len_u as int);
    }
    if len_u == 0 {
        return p;
    }
    proof {
        lemma_mul_abs_le(nx as int, amount as int, 0x2_0000_0000, 0x1_0000_0000);
        lemma_mul_abs_le(ny as int, amount as int, 0x2_0000_0000, 0x1_0000_0000);
        lemma_mul_abs_le(nx * amount, PERMILLE as int, 0x2_0000_0000_0000_0000, 1000);
        lemma_mul_abs_le(ny * amount, PERMILLE as int, 0x2_0000_0000_0000_0000, 1000);
    }
    let len: i128 = len_u as i128;
    let dx = div_toward_zero(nx * amount * PERMILLE as i128, len);
    let dy = div_toward_zero(ny * amount * PERMILLE as i128, len);
    proof {
        lemma_div_tz_abs_le(nx * amount * PERMILLE, len as int);
        lemma_div_tz_abs_le(ny * amount * PERMILLE, len as int);
    }
    Vec2 { x: limit(p.x as i128 + dx), y: limit(p.y as i128 + dy) }
}

/// A body after touching a solid circle at `(x, y)` of radius `radius`: placed
/// on its rim along the line of centers and its velocity reflected. A body
/// exactly on the center is put on the center, its velocity kept.
pub open spec fn bounce_circle_spec(b: Body, br: int, x: int, y: int, radius: int, factor: int) -> Body {
    let dx = b.pos.x - x;
    let dy = b.pos.y - y;
    let dist = sqrt_floor(dx * dx + dy * dy);
    if dist == 0 {
        Body { pos: Vec2 { x: x as i64, y: y as i64 }, vel: b.vel }
    } else {
        Body {
            pos: Vec2 {
                x: lim(x + div_tz(dx * (radius + br), dist)),
                y: lim(y + div_tz(dy * (radius + br), dist)),
            },
            vel: reflect_spec(b.vel, dx, dy, factor),
        }
    }
}

/// See `bounce_circle_spec`.
pub fn bounce_circle(b: Body, br: i64, x: i64, y: i64, radius: i64, factor: i64) -> (r: Body)
    requires
        b.bounded(),
        0 <= br <= LIMIT,
        -LIMIT <= x <= LIMIT,
        -LIMIT <= y <= LIMIT,
        0 <= radius <= LIMIT,
        0 <= factor <= FACTOR_MAX,
    ensures
        r == bounce_circle_spec(b, br as int, x as int, y as int, radius as int, factor as int),
        r.bounded(),
{
    let dx: i128 = b.pos.x as i128 - x as i128;
    let dy: i128 = b.pos.y as i128 - y as i128;
    proof {
        lemma_mul_abs_le(dx as int, dx as int, 2 * LIMIT, 2 * LIMIT);
        lemma_mul_abs_le(dy as int, dy as int, 2 * LIMIT, 2 * LIMIT);
        lemma_square_nonneg(dx as int);
        lemma_square_nonneg(dy as int);
    }
    let d2: i128 = dx * dx + dy * dy;
    let dist_u = isqrt(d2 as u128);
    proof {
        lemma_sqrt_floor_unique(d2 as int, dist_u as int);
    }
    if dist_u == 0 {
        return Body { pos: Vec2 { x, y }, vel: b.vel };
    }
    let dist: i128 = dist_u as i128;
    let reach: i128 = radius as i128 + br as i128;
    proof {
        lemma_mul_abs_le(dx as int, reach as int, 2 * LIMIT, 2 * LIMIT);
        lemma_mul_abs_le(dy as int, reach as int, 2 * LIMIT, 2 * LIMIT);
        lemma_div_tz_abs_le(dx * reach, dist as int);
        lemma_div_tz_abs_le(dy * reach, dist as int);
    }
    let ox = div_toward_zero(dx * reach, dist);
    let oy = div_toward_zero(dy * reach, dist);
    let pos = Vec2 { x: limit(x as i128 + ox), y: limit(y as i128 + oy) };
    Body { pos, vel: reflect(b.vel, dx, dy, factor) }
}

/// The sign used for a normal component: `-1` below zero, `1` otherwise.
pub open spec fn sign_spec(v: int) -> int {
    if v < 0 {
        -1
    } else {
        1
    }
}

/// The outward normal from the rectangle to a body at `p` (not scaled to unit
/// length). Outside the rectangle it points from the nearest point of the
/// rectangle to `p`. When `p` lies on or inside the rectangle, a player takes
/// the axis of least penetration (left, then right, then top, then bottom on
/// ties) and any other body the diagonal toward the side of the center it
/// is on.
pub open spec fn rect_normal_spec(p: Vec2, x: int, y: int, w: int, h: int, least_axis: bool) -> (int, int) {
    let nx = p.x - clamp(p.x as int, x, x + w);
    let ny = p.y - clamp(p.y as int, y, y + h);
    if nx != 0 || ny != 0 {
        (nx, ny)
    } else if least_axis {
        let left = abs(p.x - x);
        let right = abs(p.x - (x + w));
        let top = abs(p.y - y);
        let bottom = abs(p.y - (y + h));
        if left <= right && left <= top && left <= bottom {
            (-1, 0)
        } else if right <= left && right <= top && right <= bottom {
            (1, 0)
        } else if top <= bottom {
            (0, -1)
        } else {
            (0, 1)
        }
    } else {
        (sign_spec(2 * p.x - (2 * x + w)), sign_spec(2 * p.y - (2 * y + h)))
    }
}

fn rect_normal(p: Vec2, x: i64, y: i64, w: i64, h: i64, least_axis: bool) -> (r: (i128, i128))
    requires
        p.bounded(),
        -LIMIT <= x <= LIMIT,
        -LIMIT <= y <= LIMIT,
        0 <= w <= LIMIT,
        0 <= h <= LIMIT,
    ensures
        (r.0 as int, r.1 as int) == rect_normal_spec(p, x as int, y as int, w as int, h as int, least_axis),
        small(r.0 as int),
        small(r.1 as int),
{
    let px: i128 = p.x as i128;
    let py: i128 = p.y as i128;
    let x1: i128 = x as i128;
    let y1: i128 = y as i128;
    let x2: i128 = x as i128 + w as i128;
    let y2: i128 = y as i128 + h as i128;
    let cx: i128 = if px < x1 { x1 } else if px > x2 { x2 } else { px };
    let cy: i128 = if py < y1 { y1 } else if py > y2 { y2 } else { py };
    let nx: i128 = px - cx;
    let ny: i128 = py - cy;
    if nx != 0 || ny != 0 {
        return (nx, ny);
    }
    if least_axis {
        let left: i128 = if px >= x1 { px - x1 } else { x1 - px };
        let right: i128 = if px >= x2 { px - x2 } else { x2 - px };
        let top: i128 = if py >= y1 { py - y1 } else { y1 - py };
        let bottom: i128 = if py >= y2 { py - y2 } else { y2 - py };
        if left <= right && left <= top && left <= bottom {
            (-1, 0)
        } else if right <= left && right <= top && right <= bottom {
            (1, 0)
        } else if top <= bottom {
            (0, -1)
        } else {
            (0, 1)
        }
    } else {
        let sx: i128 = if 2 * px - (2 * x1 + w as i128) < 0 { -1 } else { 1 };
        let sy: i128 = if 2 * py - (2 * y1 + h as i128) < 0 { -1 } else { 1 };
        (sx, sy)
    }
}

/// A body after touching a solid rectangle: pushed out along the outward
/// normal and its velocity reflected about it. A player (`least_axis`) is
/// pushed by its penetration depth, `radius - |p - nearest point|` (or one
/// unit when that is not positive); any other body by half its radius plus
/// half a unit.
pub open spec fn bounce_rect_spec(b: Body, br: int, x: int, y: int, w: int, h: int, factor: int, least_axis: bool) -> Body {
    let n = rect_normal_spec(b.pos, x, y, w, h, least_axis);
    let gx = b.pos.x - clamp(b.pos.x as int, x, x + w);
    let gy = b.pos.y - clamp(b.pos.y as int, y, y + h);
    let gap = sqrt_floor(gx * gx + gy * gy);
    let amount = if least_axis {
        if br - gap > 0 {
            br - gap
        } else {
            PERMILLE as int
        }
    } else {
        br / 2 + PERMILLE / 2
    };
    Body { pos: push_spec(b.pos, n.0, n.1, amount), vel: reflect_spec(b.vel, n.0, n.1, factor) }
}

/// See `bounce_rect_spec`.
pub fn bounce_rect(b: Body, br: i64, x: i64, y: i64, w: i64, h: i64, factor: i64, least_axis: bool) -> (r: Body)
    requires
        b.bounded(),
        0 <= br <= LIMIT,
        -LIMIT <= x <= LIMIT,
        -LIMIT <= y <= LIMIT,
        0 <= w <= LIMIT,
        0 <= h <= LIMIT,
        0 <= factor <= FACTOR_MAX,
    ensures
        r == bounce_rect_spec(b, br as int, x as int, y as int, w as int, h as int, factor as int, least_axis),
        r.bounded(),
{
    let n = rect_normal(b.pos, x, y, w, h, least_axis);
    let px: i128 = b.pos.x as i128;
    let py: i128 = b.pos.y as i128;
    let x2: i128 = x as i128 + w as i128;
    let y2: i128 = y as i128 + h as i128;
    let cx: i128 = if px < x as i128 { x as i128 } else if px > x2 { x2 } else { px };
    let cy: i128 = if py < y as i128 { y as i128 } else if py > y2 { y2 } else { py };
    let gx: i128 = px - cx;
    let gy: i128 = py - cy;
    proof {
        lemma_mul_abs_le(gx as int, gx as int, 0x2_0000_0000, 0x2_0000_0000);
        lemma_mul_abs_le(gy as int, gy as int, 0x2_0000_0000, 0x2_0000_0000);
        lemma_square_nonneg(gx as int);
        lemma_square_nonneg(gy as int);
    }
    let g2: i128 = gx * gx + gy * gy;
    let gap_u = isqrt(g2 as u128);
    proof {
        lemma_sqrt_floor_unique(g2 as int, gap_u as int);
    }
    let gap: i128 = gap_u as i128;
    let amount: i128 = if least_axis {
        if br as i128 - gap > 0 {
            br as i128 - gap
        } else {
            PERMILLE as i128
        }
    } else {
        br as i128 / 2 + PERMILLE as i128 / 2
    };
    Body { pos: push(b.pos, n.0, n.1, amount), vel: reflect(b.vel, n.0, n.1, factor) }
}

} // verus!
