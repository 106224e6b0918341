use vstd::prelude::*;

verus! {

/// The bound on every coordinate, velocity component and radius, in
/// thousandths of a map unit (or of a map unit per second).
pub const LIMIT: i64 = 0x8000_0000;

/// Fixed-point scale of fractions: a value of `1000` stands for one.
pub const PERMILLE: i64 = 1000;

/// A 2D vector in thousandths of a map unit (positions) or of a map unit per
/// second (velocities).
#[derive(Clone, Copy, Debug, PartialEq, Eq, Structural)]
pub struct Vec2 {
    pub x: i64,
    pub y: i64,
}

/// The absolute value of `a`.
pub open spec fn abs(a: int) -> int {
    if a < 0 {
        -a
    } else {
        a
    }
}

/// `v` held within `[lo, hi]`.
pub open spec fn clamp(v: int, lo: int, hi: int) -> int {
    if v < lo {
        lo
    } else if v > hi {
        hi
    } else {
        v
    }
}

/// Integer division rounded toward zero.
pub open spec fn div_tz(n: int, d: int) -> int {
    if n >= 0 {
        n / d
    } else {
        -((-n) / d)
    }
}

/// A value within the kinematic bound.
pub open spec fn in_limit(v: int) -> bool {
    -LIMIT <= v <= LIMIT
}

impl Vec2 {
    /// Whether both components are within the kinematic bound.
    pub open spec fn bounded(self) -> bool {
        in_limit(self.x as int) && in_limit(self.y as int)
    }

    /// The zero vector.
    pub fn zero() -> (r: Vec2)
        ensures
            r.x == 0 && r.y == 0,
    {
        Vec2 { x: 0, y: 0 }
    }
}

/// Squared distance between two points.
pub open spec fn dist2_spec(ax: int, ay: int, bx: int, by: int) -> int {
    (ax - bx) * (ax - bx) + (ay - by) * (ay - by)
}

/// A bound on a product from bounds on its factors.
pub proof fn lemma_mul_abs_le(a: int, b: int, x: int, y: int)
    requires
        abs(a) <= x,
        abs(b) <= y,
    ensures
        abs(a * b) <= x * y,
        0 <= x * y,
{
    assert(abs(a * b) == abs(a) * abs(b)) by (nonlinear_arith);
    assert(abs(a) * abs(b) <= x * y) by (nonlinear_arith)
        requires
            0 <= abs(a) <= x,
            0 <= abs(b) <= y,
    ;
}

/// A square is not negative.
pub proof fn lemma_square_nonneg(a: int)
    ensures
        a * a >= 0,
{
    assert(a * a >= 0) by (nonlinear_arith);
}

/// `v` held within `[lo, hi]`.
pub fn clamp_i128(v: i128, lo: i64, hi: i64) -> (r: i64)
    requires
        lo <= hi,
    ensures
        r == clamp(v as int, lo as int, hi as int),
{
    if v < lo as i128 {
        lo
    } else if v > hi as i128 {
        hi
    } else {
        v as i64
    }
}

/// `v` held within the kinematic bound.
pub fn limit(v: i128) -> (r: i64)
    ensures
        r == clamp(v as int, -LIMIT as int, LIMIT as int),
        in_limit(r as int),
{
    clamp_i128(v, -LIMIT, LIMIT)
}

/// Integer division rounded toward zero.
pub fn div_toward_zero(n: i128, d: i128) -> (r: i128)
    requires
        d > 0,
        n > i128::MIN,
    ensures
        r == div_tz(n as int, d as int),
{
    if n >= 0 {
        n / d
    } else {
        let m: i128 = -n;
        -(m / d)
    }
}

/// The floor of the square root of `n`.
pub fn isqrt(n: u128) -> (r: u64)
    ensures
        r * r <= n < (r + 1) * (r + 1),
{
    let mut lo: u128 = 0;
    let mut hi: u128 = 0x1_0000_0000_0000_0000;
    assert(n < hi * hi) by (nonlinear_arith)
        requires
            hi == 0x1_0000_0000_0000_0000u128,
            n <= u128::MAX,
    ;
    while lo + 1 < hi
        invariant
            lo < hi <= 0x1_0000_0000_0000_0000u128,
            lo * lo <= n,
            n < hi * hi,
        decreases hi - lo,
    {
        let mid: u128 = lo + (hi - lo) / 2;
        assert(mid * mid < 0x1_0000_0000_0000_0000_0000_0000_0000_0000int) by (nonlinear_arith)
            requires
                mid < 0x1_0000_0000_0000_0000u128,
        ;
        if mid * mid <= n {
            lo = mid;
        } else {
            hi = mid;
        }
    }
    assert(hi == lo + 1);
    lo as u64
}

/// Squared distance between two points within the kinematic bound.
pub fn dist2(ax: i64, ay: i64, bx: i64, by: i64) -> (r: i128)
    requires
        in_limit(ax as int),
        in_limit(ay as int),
        in_limit(bx as int),
        in_limit(by as int),
    ensures
        r == dist2_spec(ax as int, ay as int, bx as int, by as int),
        0 <= r <= 0x20_0000_0000_0000_0000,
{
    let dx: i128 = ax as i128 - bx as i128;
    let dy: i128 = ay as i128 - by as i128;
    proof {
        lemma_mul_abs_le(dx as int, dx as int, 2 * LIMIT, 2 * LIMIT);
        lemma_mul_abs_le(dy as int, dy as int, 2 * LIMIT, 2 * LIMIT);
        lemma_square_nonneg(dx as int);
        lemma_square_nonneg(dy as int);
    }
    dx * dx + dy * dy
}

/// Whether a circle at `(px, py)` of radius `r_entity` overlaps a circle at
/// `(x, y)` of radius `r_obj`.
pub open spec fn circles_overlap(px: int, py: int, r_entity: int, x: int, y: int, r_obj: int) -> bool {
    dist2_spec(px, py, x, y) < (r_entity + r_obj) * (r_entity + r_obj)
}

/// Whether a circle at `(px, py)` of radius `r_entity` overlaps the rectangle
/// with corner `(x, y)`, width `w` and height `h`.
pub open spec fn circle_rect_overlap(px: int, py: int, r_entity: int, x: int, y: int, w: int, h: int) -> bool {
    dist2_spec(px, py, clamp(px, x, x + w), clamp(py, y, y + h)) < r_entity * r_entity
}

/// Basic circle-circle intersection test.
pub fn circle_intersects_circle(px: i64, py: i64, r_entity: i64, x: i64, y: i64, r_obj: i64) -> (r: bool)
    requires
        in_limit(px as int),
        in_limit(py as int),
        in_limit(x as int),
        in_limit(y as int),
        0 <= r_entity <= LIMIT,
        0 <= r_obj <= LIMIT,
    ensures
        r == circles_overlap(px as int, py as int, r_entity as int, x as int, y as int, r_obj as int),
{
    let d2 = dist2(px, py, x, y);
    let sum: i128 = r_entity as i128 + r_obj as i128;
    proof {
        lemma_mul_abs_le(sum as int, sum as int, 2 * LIMIT, 2 * LIMIT);
    }
    d2 < sum * sum
}

/// Basic circle-rectangle intersection test.
pub fn circle_intersects_rect(px: i64, py: i64, r_entity: i64, x: i64, y: i64, w: i64, h: i64) -> (r: bool)
    requires
        in_limit(px as int),
        in_limit(py as int),
        in_limit(x as int),
        in_limit(y as int),
        0 <= w <= LIMIT,
        0 <= h <= LIMIT,
        0 <= r_entity <= LIMIT,
    ensures
        r == circle_rect_overlap(px as int, py as int, r_entity as int, x as int, y as int, w as int, h as int),
{
    let x2: i128 = x as i128 + w as i128;
    let y2: i128 = y as i128 + h as i128;
    let cx: i128 = if (px as i128) < (x as i128) { x as i128 } else if px as i128 > x2 { x2 } else { px as i128 };
    let cy: i128 = if (py as i128) < (y as i128) { y as i128 } else if py as i128 > y2 { y2 } else { py as i128 };
    let dx: i128 = px as i128 - cx;
    let dy: i128 = py as i128 - cy;
    proof {
        lemma_mul_abs_le(dx as int, dx as int, 2 * LIMIT, 2 * LIMIT);
        lemma_mul_abs_le(dy as int, dy as int, 2 * LIMIT, 2 * LIMIT);
        lemma_square_nonneg(dx as int);
        lemma_square_nonneg(dy as int);
    }
    let d2: i128 = dx * dx + dy * dy;
    proof {
        lemma_mul_abs_le(r_entity as int, r_entity as int, LIMIT as int, LIMIT as int);
    }
    let rr: i128 = r_entity as i128 * r_entity as i128;
    d2 < rr
}

} // verus!
