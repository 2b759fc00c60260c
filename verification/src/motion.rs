//! The trajectory computer: charge clamping, draw speed, arrow velocity and
//! spawn position, all in exact fixed-point arithmetic.
//!
//! Inputs come in milli-units (thousandths of a world unit; a full charge is
//! 1000, a unit direction has components within ±1000). Velocity and spawn
//! position go out in micro-units (millionths), so no rounding ever happens.

use vstd::prelude::*;

verus! {

/// Milli-units in one world unit.
pub const UNIT_MILLI: i64 = 1000;

/// A full bow charge, in milli.
pub const CHARGE_SCALE: u32 = 1000;

/// Speed of an arrow released at full charge: 3 world units per tick.
pub const MAX_SPEED_MILLI: u32 = 3000;

/// The shooter's eye height above their position: 1.62 world units, in micro.
pub const EYE_HEIGHT_MICRO: i64 = 1620000;

/// How far along the view direction an arrow spawns, clear of the shooter:
/// 0.5 world units, in milli.
pub const FORWARD_OFFSET_MILLI: i64 = 500;

/// Bound on the components of a unit view direction, in milli.
pub const DIR_BOUND_MILLI: i64 = 1000;

/// Bound on world coordinates, in milli; positions stay well inside it.
pub const POS_BOUND_MILLI: i64 = 1000000000000;

/// A triple of fixed-point coordinates; the unit is the caller's.
#[derive(Clone, Copy, PartialEq, Eq, Structural, Debug)]
pub struct Vec3 {
    pub x: i64,
    pub y: i64,
    pub z: i64,
}

impl Vec3 {
    pub fn new(x: i64, y: i64, z: i64) -> (v: Vec3)
        ensures
            v == (Vec3 { x, y, z }),
    {
        Vec3 { x, y, z }
    }
}

/// A view direction the trajectory arithmetic can take: each component within
/// one world unit.
pub open spec fn dir_in_bounds(d: Vec3) -> bool {
    &&& -DIR_BOUND_MILLI <= d.x <= DIR_BOUND_MILLI
    &&& -DIR_BOUND_MILLI <= d.y <= DIR_BOUND_MILLI
    &&& -DIR_BOUND_MILLI <= d.z <= DIR_BOUND_MILLI
}

/// A position the trajectory arithmetic can take.
pub open spec fn pos_in_bounds(p: Vec3) -> bool {
    &&& -POS_BOUND_MILLI <= p.x <= POS_BOUND_MILLI
    &&& -POS_BOUND_MILLI <= p.y <= POS_BOUND_MILLI
    &&& -POS_BOUND_MILLI <= p.z <= POS_BOUND_MILLI
}

/// A charge never exceeds a full draw; anything larger from a malformed
/// producer is cut to the full draw.
pub open spec fn spec_clamp_charge(c: u32) -> u32 {
    if c > CHARGE_SCALE {
        CHARGE_SCALE
    } else {
        c
    }
}

/// Draw speed in milli-units per tick: the clamped charge times the top speed.
pub open spec fn spec_speed_milli(c: u32) -> int {
    spec_clamp_charge(c) * 3
}

/// Arrow velocity in micro-units per tick: the view direction scaled by the
/// draw speed.
pub open spec fn spec_velocity_micro(d: Vec3, c: u32) -> Vec3 {
    Vec3 {
        x: (d.x * spec_speed_milli(c)) as i64,
        y: (d.y * spec_speed_milli(c)) as i64,
        z: (d.z * spec_speed_milli(c)) as i64,
    }
}

/// Where an arrow appears, in micro-units: the shooter's position raised by
/// the eye height and pushed half a unit along the view direction.
pub open spec fn spec_spawn_position_micro(p: Vec3, d: Vec3) -> Vec3 {
    Vec3 {
        x: (p.x * UNIT_MILLI + d.x * FORWARD_OFFSET_MILLI) as i64,
        y: (p.y * UNIT_MILLI + EYE_HEIGHT_MICRO + d.y * FORWARD_OFFSET_MILLI) as i64,
        z: (p.z * UNIT_MILLI + d.z * FORWARD_OFFSET_MILLI) as i64,
    }
}

/// Squared magnitude of a coordinate triple.
pub open spec fn mag_sq(v: Vec3) -> int {
    v.x * v.x + v.y * v.y + v.z * v.z
}

pub fn clamp_charge(c: u32) -> (r: u32)
    ensures
        r == spec_clamp_charge(c),
{
    if c > CHARGE_SCALE {
        CHARGE_SCALE
    } else {
        c
    }
}

/// Draw speed in milli-units per tick for a given charge.
pub fn speed_milli(charge: u32) -> (s: u32)
    ensures
        s == spec_speed_milli(charge),
        s <= MAX_SPEED_MILLI,
{
    let clamped = clamp_charge(charge);
    let s = (clamped * MAX_SPEED_MILLI) / CHARGE_SCALE;
    proof {
        assert((clamped as int * 3000) / 1000 == clamped as int * 3) by (nonlinear_arith)
            requires
                clamped <= 1000,
        ;
    }
    s
}

pub fn velocity_micro(d: Vec3, charge: u32) -> (v: Vec3)
    requires
        dir_in_bounds(d),
    ensures
        v == spec_velocity_micro(d, charge),
{
    let s = speed_milli(charge);
    let si: i64 = s as i64;
    proof {
        lemma_scale_bounded(d.x as int, si as int);
        lemma_scale_bounded(d.y as int, si as int);
        lemma_scale_bounded(d.z as int, si as int);
    }
    Vec3 { x: d.x * si, y: d.y * si, z: d.z * si }
}

proof fn lemma_scale_bounded(a: int, s: int)
    requires
        -1000 <= a <= 1000,
        0 <= s <= 3000,
    ensures
        -3000000 <= a * s <= 3000000,
{
    assert(-3000000 <= a * s <= 3000000) by (nonlinear_arith)
        requires
            -1000 <= a <= 1000,
            0 <= s <= 3000,
    ;
}

pub fn spawn_position_micro(p: Vec3, d: Vec3) -> (r: Vec3)
    requires
        dir_in_bounds(d),
        pos_in_bounds(p),
    ensures
        r == spec_spawn_position_micro(p, d),
{
    proof {
        lemma_spawn_terms_bounded(p.x as int, d.x as int);
        lemma_spawn_terms_bounded(p.y as int, d.y as int);
        lemma_spawn_terms_bounded(p.z as int, d.z as int);
    }
    Vec3 {
        x: p.x * UNIT_MILLI + d.x * FORWARD_OFFSET_MILLI,
        y: p.y * UNIT_MILLI + EYE_HEIGHT_MICRO + d.y * FORWARD_OFFSET_MILLI,
        z: p.z * UNIT_MILLI + d.z * FORWARD_OFFSET_MILLI,
    }
}

proof fn lemma_spawn_terms_bounded(a: int, b: int)
    requires
        -1000000000000 <= a <= 1000000000000,
        -1000 <= b <= 1000,
    ensures
        -1000000000000000 <= a * 1000 <= 1000000000000000,
        -500000 <= b * 500 <= 500000,
{
    assert(-1000000000000000 <= a * 1000 <= 1000000000000000) by (nonlinear_arith)
        requires
            -1000000000000 <= a <= 1000000000000,
    ;
    assert(-500000 <= b * 500 <= 500000) by (nonlinear_arith)
        requires
            -1000 <= b <= 1000,
    ;
}

/// Velocity law: the squared magnitude of the released arrow's velocity is
/// the squared draw speed times the squared magnitude of the view direction,
/// so along a unit direction the arrow flies at exactly charge × 3 world
/// units per tick; for charges within a full draw the speed is exactly three
/// times the charge, and the clamp never changes such a charge.
pub proof fn lemma_velocity_magnitude(d: Vec3, charge: u32)
    requires
        dir_in_bounds(d),
    ensures
        mag_sq(spec_velocity_micro(d, charge)) == spec_speed_milli(charge) * spec_speed_milli(
            charge,
        ) * mag_sq(d),
        charge <= CHARGE_SCALE ==> spec_speed_milli(charge) == 3 * charge,
        0 <= spec_speed_milli(charge) <= MAX_SPEED_MILLI,
{
    let s = spec_speed_milli(charge);
    assert(0 <= s <= 3000);
    lemma_scale_bounded(d.x as int, s);
    lemma_scale_bounded(d.y as int, s);
    lemma_scale_bounded(d.z as int, s);
    let v = spec_velocity_micro(d, charge);
    assert(v.x == d.x * s && v.y == d.y * s && v.z == d.z * s);
    assert((d.x * s) * (d.x * s) + (d.y * s) * (d.y * s) + (d.z * s) * (d.z * s) == s * s * (d.x
        * d.x + d.y * d.y + d.z * d.z)) by (nonlinear_arith);
}

} // verus!
