use vstd::prelude::*;

use crate::geom::{clamp, PERMILLE};
use crate::model::{PhysicsSettings, MASS_MAX};

verus! {

/// Ticks of held rotation at which a shot is fully charged (one second).
pub const MAX_CHARGE_TICKS: u32 = 60;

/// Muzzle speed of an uncharged shot, in thousandths of a unit per second.
pub const BASE_SHOT_SPEED: i64 = 300_000;

/// Speed added by a full charge, per thousandth of charge.
pub const CHARGE_SPEED: i64 = 700;

/// Recoil of any shot, in thousandths.
pub const BASE_RECOIL: i64 = 600;

/// Distance from a player's center at which its shot appears, in units.
pub const MUZZLE_OFFSET: i64 = 26;

/// `sin(3 j degrees)` in thousandths, for `j` in `0..=30`, rounded.
pub open spec fn sin_table() -> Seq<i64> {
    seq![
        0, 52, 105, 156, 208, 259, 309, 358, 407, 454, 500, 545, 588, 629, 669, 707, 743, 777, 809, 839, 866,
        891, 914, 934, 951, 966, 978, 988, 995, 999, 1000,
    ]
}

/// The rotation `rot` (within `[-360, 360]`) as an angle in `[0, 360)`.
pub open spec fn angle_of(rot: int) -> int {
    let d = if rot < 0 {
        rot + 360
    } else {
        rot
    };
    if d == 360 {
        0
    } else {
        d
    }
}

/// The unit vector that a player with rotation `rot` degrees faces, in
/// thousandths: `(cos, sin)`, on the 3-degree grid that rotation moves on
/// (a rotation between grid steps is taken down to the step below it).
/// Angles grow clockwise on the screen, whose `y` axis points down.
pub open spec fn unit_dir_spec(rot: int) -> (int, int) {
    let k = angle_of(rot) / 3;
    let q = k / 30;
    let j = k % 30;
    let s = sin_table()[j] as int;
    let c = sin_table()[30 - j] as int;
    if q == 0 {
        (c, s)
    } else if q == 1 {
        (-s, c)
    } else if q == 2 {
        (-c, -s)
    } else {
        (s, -c)
    }
}

/// See `unit_dir_spec`.
pub fn unit_dir(rot: i64) -> (r: (i64, i64))
    requires
        -360 <= rot <= 360,
    ensures
        (r.0 as int, r.1 as int) == unit_dir_spec(rot as int),
        -1000 <= r.0 <= 1000,
        -1000 <= r.1 <= 1000,
{
    let table: [i64; 31] = [
        0, 52, 105, 156, 208, 259, 309, 358, 407, 454, 500, 545, 588, 629, 669, 707, 743, 777, 809, 839, 866,
        891, 914, 934, 951, 966, 978, 988, 995, 999, 1000,
    ];
    proof {
        assert(table@ =~= sin_table());
        assert forall|i: int| 0 <= i < 31 implies 0 <= #[trigger] sin_table()[i] <= 1000 by {
            assert(0 <= table@[i] <= 1000);
        }
    }
    let mut d: i64 = if rot < 0 { rot + 360 } else { rot };
    if d == 360 {
        d = 0;
    }
    let k: i64 = d / 3;
    let q: i64 = k / 30;
    let j: i64 = k % 30;
    let s = table[j as usize];
    let c = table[(30 - j) as usize];
    if q == 0 {
        (c, s)
    } else if q == 1 {
        (-s, c)
    } else if q == 2 {
        (-c, -s)
    } else {
        (s, -c)
    }
}

/// Charge in thousandths from the ticks a rotation was held: the ticks are
/// capped at a full charge and the fraction kept within `[0.1, 1]`.
pub open spec fn charge_permille(spin_ticks: int) -> int {
    let ticks = if spin_ticks < MAX_CHARGE_TICKS {
        spin_ticks
    } else {
        MAX_CHARGE_TICKS as int
    };
    clamp(ticks * PERMILLE / MAX_CHARGE_TICKS as int, 100, 1000)
}

/// Muzzle speed of a shot after `spin_ticks` of charge.
pub open spec fn shot_speed_spec(spin_ticks: int) -> int {
    BASE_SHOT_SPEED + CHARGE_SPEED * charge_permille(spin_ticks)
}

/// Snowball mass over player mass, in thousandths, kept within `[0.2, 2]`.
pub open spec fn mass_ratio_spec(p: PhysicsSettings) -> int {
    clamp(p.snowball_mass * PERMILLE / p.player_mass as int, 200, 2000)
}

/// Recoil strength in thousandths after `spin_ticks` of charge.
pub open spec fn recoil_spec(spin_ticks: int, p: PhysicsSettings) -> int {
    BASE_RECOIL + mass_ratio_spec(p) * charge_permille(spin_ticks) / PERMILLE as int
}

/// See `shot_speed_spec`.
pub fn shot_speed(spin_ticks: u32) -> (r: i64)
    ensures
        r == shot_speed_spec(spin_ticks as int),
        370_000 <= r <= 1_000_000,
{
    let ticks: i64 = if spin_ticks < MAX_CHARGE_TICKS { spin_ticks as i64 } else { MAX_CHARGE_TICKS as i64 };
    let raw: i64 = ticks * PERMILLE / MAX_CHARGE_TICKS as i64;
    let charge: i64 = if raw < 100 { 100 } else if raw > 1000 { 1000 } else { raw };
    BASE_SHOT_SPEED + CHARGE_SPEED * charge
}

/// See `recoil_spec`.
pub fn recoil(spin_ticks: u32, p: &PhysicsSettings) -> (r: i64)
    requires
        p.wf(),
    ensures
        r == recoil_spec(spin_ticks as int, *p),
        620 <= r <= 2600,
{
    let ticks: i64 = if spin_ticks < MAX_CHARGE_TICKS { spin_ticks as i64 } else { MAX_CHARGE_TICKS as i64 };
    let raw: i64 = ticks * PERMILLE / MAX_CHARGE_TICKS as i64;
    let charge: i64 = if raw < 100 { 100 } else if raw > 1000 { 1000 } else { raw };
    assert(p.snowball_mass * PERMILLE <= MASS_MAX * 1000);
    let ratio_raw: i64 = p.snowball_mass * PERMILLE / p.player_mass;
    let ratio: i64 = if ratio_raw < 200 { 200 } else if ratio_raw > 2000 { 2000 } else { ratio_raw };
    proof {
        assert(ratio * charge <= 2_000_000) by (nonlinear_arith)
            requires
                200 <= ratio <= 2000,
                100 <= charge <= 1000,
        ;
        assert(ratio * charge >= 20_000) by (nonlinear_arith)
            requires
                200 <= ratio <= 2000,
                100 <= charge <= 1000,
        ;
    }
    BASE_RECOIL + ratio * charge / PERMILLE
}

/// Charge clamp: shot speed and recoil depend on the charge time only up to
/// a full charge, so holding the rotation longer changes neither, and both
/// stay within fixed bounds.
pub proof fn lemma_charge_clamp(t1: u32, t2: u32, p: PhysicsSettings)
    requires
        p.wf(),
        t1 >= MAX_CHARGE_TICKS,
        t2 >= MAX_CHARGE_TICKS,
    ensures
        shot_speed_spec(t1 as int) == shot_speed_spec(t2 as int),
        recoil_spec(t1 as int, p) == recoil_spec(t2 as int, p),
        shot_speed_spec(t1 as int) == shot_speed_spec(MAX_CHARGE_TICKS as int),
        forall|t: u32| 370_000 <= #[trigger] shot_speed_spec(t as int) <= 1_000_000,
        forall|t: u32| 620 <= #[trigger] recoil_spec(t as int, p) <= 2600,
{
    assert forall|t: u32| 620 <= #[trigger] recoil_spec(t as int, p) <= 2600 by {
        let ratio = mass_ratio_spec(p);
        let charge = charge_permille(t as int);
        assert(ratio * charge <= 2_000_000) by (nonlinear_arith)
            requires
                200 <= ratio <= 2000,
                100 <= charge <= 1000,
        ;
        assert(ratio * charge >= 20_000) by (nonlinear_arith)
            requires
                200 <= ratio <= 2000,
                100 <= charge <= 1000,
        ;
    }
}

} // verus!
