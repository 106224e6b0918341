use vstd::prelude::*;

use crate::geom::{
    abs, clamp, div_toward_zero, in_limit, div_tz, isqrt, lemma_mul_abs_le, lemma_square_nonneg, limit, Vec2,
    LIMIT, PERMILLE,
};
use vstd::arithmetic::div_mod::{lemma_div_is_ordered, lemma_fundamental_div_mod, lemma_mod_pos_bound};

use crate::model::{fraction_ok, mass_ok, radius_ok, Body, MASS_MAX};

verus! {

/// The floor of the square root of `n`.
pub open spec fn sqrt_floor(n: int) -> int {
    choose|r: int| #[trigger] is_sqrt_floor(n, r)
}

/// Whether `r` is the floor of the square root of `n`.
pub open spec fn is_sqrt_floor(n: int, r: int) -> bool {
    0 <= r && r * r <= n < (r + 1) * (r + 1)
}

pub(crate) proof fn lemma_sqrt_floor_unique(n: int, r: int)
    requires
        0 <= r,
        r * r <= n < (r + 1) * (r + 1),
    ensures
        sqrt_floor(n) == r,
{
    assert(is_sqrt_floor(n, r));
    let s = sqrt_floor(n);
    assert(0 <= s && s * s <= n < (s + 1) * (s + 1));
    if s < r {
        assert((s + 1) * (s + 1) <= r * r) by (nonlinear_arith)
            requires
                0 <= s < r,
        ;
    } else if r < s {
        assert((r + 1) * (r + 1) <= s * s) by (nonlinear_arith)
            requires
                0 <= r < s,
        ;
    }
}

/// How far two overlapping circles are pushed apart, per axis: `(a.x, a.y,
/// b.x, b.y)`. The body `a` moves back along the normal by the share of the
/// penetration given by `b`'s mass, and `b` moves forward by `a`'s share.
pub open spec fn separation_shifts(a: Body, b: Body, ra: int, ma: int, rb: int, mb: int) -> (int, int, int, int) {
    let dx = b.pos.x - a.pos.x;
    let dy = b.pos.y - a.pos.y;
    let dist = sqrt_floor(dx * dx + dy * dy);
    let pen = ra + rb - dist;
    let den = dist * (ma + mb);
    (div_tz(dx * pen * mb, den), div_tz(dy * pen * mb, den), div_tz(dx * pen * ma, den), div_tz(dy * pen * ma, den))
}

/// Whether two circles overlap with distinct centers, the case that the
/// resolver acts on.
pub open spec fn resolvable(a: Body, b: Body, ra: int, rb: int) -> bool {
    let dx = b.pos.x - a.pos.x;
    let dy = b.pos.y - a.pos.y;
    let dist = sqrt_floor(dx * dx + dy * dy);
    0 < dist < ra + rb
}

/// Two circles after an overlap between them is resolved: pushed apart by
/// mass share and, when they converge along the normal, given the impulse
/// `-(1 + e) * v_sep / (ma + mb)` scaled by the other body's mass, where `e`
/// is `bounciness` in thousandths. Results are held within the bound.
pub open spec fn resolve_spec(a: Body, b: Body, ra: int, ma: int, rb: int, mb: int, bounciness: int) -> (Body, Body) {
    let dx = b.pos.x - a.pos.x;
    let dy = b.pos.y - a.pos.y;
    let d2 = dx * dx + dy * dy;
    if !resolvable(a, b, ra, rb) {
        (a, b)
    } else {
        let s = separation_shifts(a, b, ra, ma, rb, mb);
        let apos = Vec2 {
            x: clamp(a.pos.x - s.0, -LIMIT as int, LIMIT as int) as i64,
            y: clamp(a.pos.y - s.1, -LIMIT as int, LIMIT as int) as i64,
        };
        let bpos = Vec2 {
            x: clamp(b.pos.x + s.2, -LIMIT as int, LIMIT as int) as i64,
            y: clamp(b.pos.y + s.3, -LIMIT as int, LIMIT as int) as i64,
        };
        let sep = (b.vel.x - a.vel.x) * dx + (b.vel.y - a.vel.y) * dy;
        if sep >= 0 {
            (Body { pos: apos, vel: a.vel }, Body { pos: bpos, vel: b.vel })
        } else {
            let k = (PERMILLE + bounciness) * (-sep);
            let den = PERMILLE * d2 * (ma + mb);
            let avel = Vec2 {
                x: clamp(a.vel.x - div_tz(dx * k * mb, den), -LIMIT as int, LIMIT as int) as i64,
                y: clamp(a.vel.y - div_tz(dy * k * mb, den), -LIMIT as int, LIMIT as int) as i64,
            };
            let bvel = Vec2 {
                x: clamp(b.vel.x + div_tz(dx * k * ma, den), -LIMIT as int, LIMIT as int) as i64,
                y: clamp(b.vel.y + div_tz(dy * k * ma, den), -LIMIT as int, LIMIT as int) as i64,
            };
            (Body { pos: apos, vel: avel }, Body { pos: bpos, vel: bvel })
        }
    }
}

proof fn lemma_mul3_le(a: int, b: int, c: int, x: int, y: int, z: int)
    requires
        abs(a) <= x,
        abs(b) <= y,
        abs(c) <= z,
    ensures
        abs(a * b) <= x * y,
        abs(a * b * c) <= x * y * z,
{
    lemma_mul_abs_le(a, b, x, y);
    lemma_mul_abs_le(a * b, c, x * y, z);
}

/// Resolves an overlap between two circular bodies, `a` of radius `ra` and
/// mass `ma`, `b` of radius `rb` and mass `mb`, with restitution `bounciness`
/// in thousandths.
pub fn resolve_circle_circle(a: Body, b: Body, ra: i64, ma: i64, rb: i64, mb: i64, bounciness: i64) -> (r: (Body, Body))
    requires
        a.bounded(),
        b.bounded(),
        radius_ok(ra),
        radius_ok(rb),
        mass_ok(ma),
        mass_ok(mb),
        fraction_ok(bounciness),
    ensures
        r == resolve_spec(a, b, ra as int, ma as int, rb as int, mb as int, bounciness as int),
        r.0.bounded(),
        r.1.bounded(),
{
    let dx: i128 = b.pos.x as i128 - a.pos.x as i128;
    let dy: i128 = b.pos.y as i128 - a.pos.y as i128;
    proof {
        lemma_mul_abs_le(dx as int, dx as int, 2 * LIMIT, 2 * LIMIT);
        lemma_mul_abs_le(dy as int, dy as int, 2 * LIMIT, 2 * LIMIT);
        lemma_square_nonneg(dx as int);
        lemma_square_nonneg(dy as int);
    }
    let d2: i128 = dx * dx + dy * dy;
    let dist_u = isqrt(d2 as u128);
    proof {
        lemma_sqrt_floor_unique(d2 as int, dist_u as int);
    }
    let dist: i128 = dist_u as i128;
    let min_dist: i128 = ra as i128 + rb as i128;
    if dist <= 0 || dist >= min_dist {
        return (a, b);
    }
    let pen: i128 = min_dist - dist;
    let total: i128 = ma as i128 + mb as i128;
    proof {
        lemma_mul3_le(dx as int, pen as int, mb as int, 2 * LIMIT, 2 * LIMIT, MASS_MAX as int);
        lemma_mul3_le(dy as int, pen as int, mb as int, 2 * LIMIT, 2 * LIMIT, MASS_MAX as int);
        lemma_mul3_le(dx as int, pen as int, ma as int, 2 * LIMIT, 2 * LIMIT, MASS_MAX as int);
        lemma_mul3_le(dy as int, pen as int, ma as int, 2 * LIMIT, 2 * LIMIT, MASS_MAX as int);
        lemma_mul_abs_le(dist as int, total as int, 2 * LIMIT, 2 * MASS_MAX);
        assert(dist * total > 0) by (nonlinear_arith)
            requires
                dist > 0,
                total > 0,
        ;
    }
    let den: i128 = dist * total;
    let sax = div_toward_zero(dx * pen * mb as i128, den);
    let say = div_toward_zero(dy * pen * mb as i128, den);
    let sbx = div_toward_zero(dx * pen * ma as i128, den);
    let sby = div_toward_zero(dy * pen * ma as i128, den);
    proof {
        assert(abs(sax as int) <= abs(dx * pen * mb)) by {
            lemma_div_tz_abs_le(dx * pen * mb, den as int);
        }
        assert(abs(say as int) <= abs(dy * pen * mb)) by {
            lemma_div_tz_abs_le(dy * pen * mb, den as int);
        }
        assert(abs(sbx as int) <= abs(dx * pen * ma)) by {
            lemma_div_tz_abs_le(dx * pen * ma, den as int);
        }
        assert(abs(sby as int) <= abs(dy * pen * ma)) by {
            lemma_div_tz_abs_le(dy * pen * ma, den as int);
        }
    }
    let apos = Vec2 { x: limit(a.pos.x as i128 - sax), y: limit(a.pos.y as i128 - say) };
    let bpos = Vec2 { x: limit(b.pos.x as i128 + sbx), y: limit(b.pos.y as i128 + sby) };
    let rvx: i128 = b.vel.x as i128 - a.vel.x as i128;
    let rvy: i128 = b.vel.y as i128 - a.vel.y as i128;
    proof {
        lemma_mul_abs_le(rvx as int, dx as int, 2 * LIMIT, 2 * LIMIT);
        lemma_mul_abs_le(rvy as int, dy as int, 2 * LIMIT, 2 * LIMIT);
    }
    let sep: i128 = rvx * dx + rvy * dy;
    if sep >= 0 {
        return (Body { pos: apos, vel: a.vel }, Body { pos: bpos, vel: b.vel });
    }
    proof {
        lemma_mul_abs_le((PERMILLE + bounciness) as int, -sep, 2 * PERMILLE, 8 * LIMIT * LIMIT);
    }
    let k: i128 = (PERMILLE as i128 + bounciness as i128) * (-sep);
    proof {
        lemma_mul3_le(dx as int, k as int, mb as int, 2 * LIMIT, 16 * PERMILLE * LIMIT * LIMIT, MASS_MAX as int);
        lemma_mul3_le(dy as int, k as int, mb as int, 2 * LIMIT, 16 * PERMILLE * LIMIT * LIMIT, MASS_MAX as int);
        lemma_mul3_le(dx as int, k as int, ma as int, 2 * LIMIT, 16 * PERMILLE * LIMIT * LIMIT, MASS_MAX as int);
        lemma_mul3_le(dy as int, k as int, ma as int, 2 * LIMIT, 16 * PERMILLE * LIMIT * LIMIT, MASS_MAX as int);
        lemma_mul3_le(PERMILLE as int, d2 as int, total as int, PERMILLE as int, 0x20_0000_0000_0000_0000, 2 * MASS_MAX);
        assert(d2 > 0) by (nonlinear_arith)
            requires
                dist_u * dist_u <= d2,
                dist_u > 0,
        ;
        assert(PERMILLE * d2 * total > 0) by (nonlinear_arith)
            requires
                d2 > 0,
                total > 0,
        ;
    }
    let den2: i128 = PERMILLE as i128 * d2 * total;
    let dvax = div_toward_zero(dx * k * mb as i128, den2);
    let dvay = div_toward_zero(dy * k * mb as i128, den2);
    let dvbx = div_toward_zero(dx * k * ma as i128, den2);
    let dvby = div_toward_zero(dy * k * ma as i128, den2);
    proof {
        lemma_div_tz_abs_le(dx * k * mb, den2 as int);
        lemma_div_tz_abs_le(dy * k * mb, den2 as int);
        lemma_div_tz_abs_le(dx * k * ma, den2 as int);
        lemma_div_tz_abs_le(dy * k * ma, den2 as int);
    }
    let avel = Vec2 { x: limit(a.vel.x as i128 - dvax), y: limit(a.vel.y as i128 - dvay) };
    let bvel = Vec2 { x: limit(b.vel.x as i128 + dvbx), y: limit(b.vel.y as i128 + dvby) };
    (Body { pos: apos, vel: avel }, Body { pos: bpos, vel: bvel })
}

/// Rounding toward zero never grows the magnitude.
pub proof fn lemma_div_tz_abs_le(n: int, d: int)
    requires
        d > 0,
    ensures
        abs(div_tz(n, d)) <= abs(n),
        abs(div_tz(n, d)) == abs(n) / d,
{
    if n >= 0 {
        assert(n / d <= n) by (nonlinear_arith)
            requires
                n >= 0,
                d > 0,
        ;
        assert(n / d >= 0) by (nonlinear_arith)
            requires
                n >= 0,
                d > 0,
        ;
    } else {
        assert((-n) / d <= -n) by (nonlinear_arith)
            requires
                n < 0,
                d > 0,
        ;
        assert((-n) / d >= 0) by (nonlinear_arith)
            requires
                n < 0,
                d > 0,
        ;
    }
}

/// Rounding toward zero is off by less than one divisor.
proof fn lemma_div_tz_close(n: int, d: int)
    requires
        d > 0,
    ensures
        abs(div_tz(n, d) * d - n) < d,
{
    let m = abs(n);
    lemma_fundamental_div_mod(m, d);
    lemma_mod_pos_bound(m, d);
    assert((m / d) * d == d * (m / d)) by (nonlinear_arith);
    if n < 0 {
        assert(div_tz(n, d) * d == -((m / d) * d)) by (nonlinear_arith)
            requires
                div_tz(n, d) == -(m / d),
        ;
    }
}

/// The distance after separation, per axis, in the form that rounding allows:
/// `(sa + sb) * dist` is within `2 * dist` of `dx * pen`.
proof fn lemma_shift_sum_close(dx: int, pen: int, ma: int, mb: int, dist: int)
    requires
        ma > 0,
        mb > 0,
        dist > 0,
    ensures
        abs((div_tz(dx * pen * mb, dist * (ma + mb)) + div_tz(dx * pen * ma, dist * (ma + mb))) * dist - dx
            * pen) < 2 * dist,
{
    let total = ma + mb;
    let den = dist * total;
    assert(den > 0) by (nonlinear_arith)
        requires
            dist > 0,
            total > 0,
            den == dist * total,
    ;
    let sa = div_tz(dx * pen * mb, den);
    let sb = div_tz(dx * pen * ma, den);
    lemma_div_tz_close(dx * pen * mb, den);
    lemma_div_tz_close(dx * pen * ma, den);
    let e = (sa + sb) * dist - dx * pen;
    assert(e * total == sa * den - dx * pen * mb + sb * den - dx * pen * ma) by (nonlinear_arith)
        requires
            e == (sa + sb) * dist - dx * pen,
            den == dist * total,
            total == ma + mb,
    ;
    assert(abs(e * total) < 2 * den);
    lemma_abs_mul(e, total);
    assert(abs(e) < 2 * dist) by (nonlinear_arith)
        requires
            abs(e * total) < 2 * den,
            den == dist * total,
            total > 0,
            abs(e * total) == abs(e) * total,
    ;
}

proof fn lemma_abs_mul(a: int, b: int)
    ensures
        abs(a * b) == abs(a) * abs(b),
{
    assert(abs(a * b) == abs(a) * abs(b)) by (nonlinear_arith);
}

/// The heavier body is shifted no more than the lighter one.
proof fn lemma_heavier_moves_less(n: int, ma: int, mb: int, den: int)
    requires
        ma >= mb > 0,
        den > 0,
    ensures
        abs(div_tz(n * mb, den)) <= abs(div_tz(n * ma, den)),
{
    lemma_div_tz_abs_le(n * mb, den);
    lemma_div_tz_abs_le(n * ma, den);
    lemma_abs_mul(n, mb);
    lemma_abs_mul(n, ma);
    assert(abs(n) * mb <= abs(n) * ma) by (nonlinear_arith)
        requires
            ma >= mb,
            abs(n) >= 0,
    ;
    lemma_div_is_ordered(abs(n * mb), abs(n * ma), den);
}

/// Mass-weighted separation: when two overlapping circles are resolved, each
/// body moves along the line of centers by the other body's share of the
/// total mass, so the heavier body moves no farther than the lighter one, and
/// the new vector between the centers is the old one scaled to length
/// `ra + rb`, to within two thousandths of a unit of rounding per axis.
pub proof fn lemma_mass_weighted_separation(a: Body, b: Body, ra: int, ma: int, rb: int, mb: int, bounciness: int)
    requires
        a.bounded(),
        b.bounded(),
        0 < ra <= LIMIT,
        0 < rb <= LIMIT,
        0 < ma <= MASS_MAX,
        0 < mb <= MASS_MAX,
        resolvable(a, b, ra, rb),
    ensures
        ({
            let s = separation_shifts(a, b, ra, ma, rb, mb);
            let dx = b.pos.x - a.pos.x;
            let dy = b.pos.y - a.pos.y;
            let dist = sqrt_floor(dx * dx + dy * dy);
            let r = resolve_spec(a, b, ra, ma, rb, mb, bounciness);
            &&& ma >= mb ==> abs(s.0) <= abs(s.2) && abs(s.1) <= abs(s.3)
            &&& mb >= ma ==> abs(s.2) <= abs(s.0) && abs(s.3) <= abs(s.1)
            &&& abs((dx + s.0 + s.2) * dist - dx * (ra + rb)) < 2 * dist
            &&& abs((dy + s.1 + s.3) * dist - dy * (ra + rb)) < 2 * dist
            &&& in_limit(a.pos.x - s.0) ==> r.0.pos.x == a.pos.x - s.0
            &&& in_limit(a.pos.y - s.1) ==> r.0.pos.y == a.pos.y - s.1
            &&& in_limit(b.pos.x + s.2) ==> r.1.pos.x == b.pos.x + s.2
            &&& in_limit(b.pos.y + s.3) ==> r.1.pos.y == b.pos.y + s.3
        }),
{
    let dx = b.pos.x - a.pos.x;
    let dy = b.pos.y - a.pos.y;
    let dist = sqrt_floor(dx * dx + dy * dy);
    let pen = ra + rb - dist;
    let den = dist * (ma + mb);
    assert(den > 0) by (nonlinear_arith)
        requires
            dist > 0,
            ma + mb > 0,
            den == dist * (ma + mb),
    ;
    assert(dx * pen * mb == (dx * pen) * mb);
    if ma >= mb {
        lemma_heavier_moves_less(dx * pen, ma, mb, den);
        lemma_heavier_moves_less(dy * pen, ma, mb, den);
    }
    if mb >= ma {
        lemma_heavier_moves_less(dx * pen, mb, ma, den);
        lemma_heavier_moves_less(dy * pen, mb, ma, den);
    }
    lemma_shift_sum_close(dx, pen, ma, mb, dist);
    lemma_shift_sum_close(dy, pen, ma, mb, dist);
    assert((dx + (div_tz(dx * pen * mb, den) + div_tz(dx * pen * ma, den))) * dist - dx * (ra + rb) == (div_tz(
        dx * pen * mb,
        den,
    ) + div_tz(dx * pen * ma, den)) * dist - dx * pen) by (nonlinear_arith)
        requires
            pen == ra + rb - dist,
    ;
    assert((dy + (div_tz(dy * pen * mb, den) + div_tz(dy * pen * ma, den))) * dist - dy * (ra + rb) == (div_tz(
        dy * pen * mb,
        den,
    ) + div_tz(dy * pen * ma, den)) * dist - dy * pen) by (nonlinear_arith)
        requires
            pen == ra + rb - dist,
    ;
}

} // verus!
