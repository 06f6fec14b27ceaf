//! The per-tick steering law: heading-bias random walk, pseudo-gravity
//! acceleration toward the chosen sound, speed clamping, terrain hover
//! correction, yaw rotation and facing.

use vstd::prelude::*;

use crate::fxp::spec_clamp;
use crate::fxp::clamp_i64;
use crate::fxp::tdiv;
use crate::fxp::div_trunc;
use crate::fxp::spec_sin_milli;
use crate::fxp::spec_cos_milli;
use crate::fxp::sin_milli;
use crate::fxp::cos_milli;
use crate::fxp::sqrt_floor;
use crate::fxp::lemma_sqrt_floor_exists;
use crate::vec3::Vec3;
use crate::vec3::norm_sq;
use crate::vec3::within;
use crate::vec3::spec_neg;
use crate::vec3::spec_with_length;
use crate::vec3::with_length;
use crate::vec3::lemma_norm_sq_bound;
use crate::vec3::lemma_component_le_sqrt;
use crate::vec3::lemma_with_length_norm_sq;
use crate::vec3::lemma_neg_norm_sq;
use crate::vec3::lemma_rescale_neg;

verus! {

/// Two pi in milli-radians: the heading bias is clamped to this band.
pub const TWO_PI_MILLI: i64 = 6283;

/// Pseudo-gravity pulling the agent toward the selected sound (units/s^2).
pub const MONSTER_GRAVITY: i64 = 5;

/// Minimal stalking speed, milli-units/s (20 km/h).
pub const MIN_STALK_SPEED_MILLI: i64 = 5556;

/// Maximal stalking speed, milli-units/s (40 km/h).
pub const MAX_STALK_SPEED_MILLI: i64 = 11111;

/// Square of `MIN_STALK_SPEED_MILLI`.
pub const MIN_STALK_SPEED_SQ: i64 = 30_869_136;

/// Square of `MAX_STALK_SPEED_MILLI`.
pub const MAX_STALK_SPEED_SQ: i64 = 123_454_321;

/// Rescale target when the speed fell below the band: a hair above the
/// minimum so integer rounding cannot drop the result out of the band.
pub const CLAMP_LO_TARGET_MILLI: i64 = 5560;

/// Rescale target when the speed rose above the band: a hair below the
/// maximum so integer rounding cannot push the result out of the band.
pub const CLAMP_HI_TARGET_MILLI: i64 = 11110;

/// Hover height the ground correction seeks, milli-units.
pub const HOVER_HEIGHT_MILLI: i64 = 8000;

/// The ground probe is cast from this height above the agent, milli-units.
pub const RAY_PRE_LEN_MILLI: i64 = 4000;

/// Probe distance assumed when the ground probe reports no hit.
pub const NO_HIT_DISTANCE_MILLI: i64 = -10_000;

/// Longest tick the steering law is specified for, milli-seconds.
pub const MAX_TICK_MILLIS: i64 = 1000;

/// Largest probe distance magnitude the hover correction admits.
pub const PROBE_LIMIT_MILLI: i64 = 1_000_000;

/// Bound on a velocity component that every steering update re-establishes.
pub const VELOCITY_LIMIT_MILLI: i64 = 1_100_000_000;

// ------------------------------------------------------------------
// Heading bias random walk.

/// One step of the heading-bias walk: add the perturbation, clamp into
/// `[-2 pi, 2 pi]`.
pub open spec fn spec_turn_bias(d: int, p: int) -> int {
    spec_clamp(d + p, -(TWO_PI_MILLI as int), TWO_PI_MILLI as int)
}

pub fn turn_bias(d: i64, p: i64) -> (r: i64)
    requires
        i64::MIN <= d + p <= i64::MAX,
    ensures
        r == spec_turn_bias(d as int, p as int),
        -TWO_PI_MILLI <= r <= TWO_PI_MILLI,
{
    clamp_i64(d + p, -TWO_PI_MILLI, TWO_PI_MILLI)
}

/// The heading bias after a whole sequence of perturbations.
pub open spec fn spec_bias_walk(start: int, ps: Seq<int>) -> int
    decreases ps.len(),
{
    if ps.len() == 0 {
        start
    } else {
        spec_turn_bias(spec_bias_walk(start, ps.drop_last()), ps.last())
    }
}

/// However many ticks pass and whatever the perturbations are, the heading
/// bias stays within `[-2 pi, 2 pi]`.
pub proof fn lemma_bias_walk_bounded(start: int, ps: Seq<int>)
    requires
        -TWO_PI_MILLI <= start <= TWO_PI_MILLI,
    ensures
        -TWO_PI_MILLI <= spec_bias_walk(start, ps) <= TWO_PI_MILLI,
    decreases ps.len(),
{
    if ps.len() > 0 {
        lemma_bias_walk_bounded(start, ps.drop_last());
    }
}

// ------------------------------------------------------------------
// Acceleration toward the selected sound.

/// One component of the pseudo-gravity acceleration over a tick of `dt`
/// milli-seconds: `offset * G * dt^2` in milli-units.
pub open spec fn spec_accel_term(c: int, dt: int) -> int {
    tdiv(c * 5 * dt * dt, 1_000_000)
}

/// Velocity after accelerating toward the relative offset `rel`.
pub open spec fn spec_accel(vel: Vec3, rel: Vec3, dt: int) -> Vec3 {
    Vec3 {
        x: (vel.x + spec_accel_term(rel.x as int, dt)) as i64,
        y: (vel.y + spec_accel_term(rel.y as int, dt)) as i64,
        z: (vel.z + spec_accel_term(rel.z as int, dt)) as i64,
    }
}

/// `tdiv` is bounded by the bound on its dividend.
proof fn lemma_tdiv_bound(a: int, b: int, m: int)
    requires
        b > 0,
        -m <= a <= m,
        0 <= m,
    ensures
        -(m / b) <= tdiv(a, b) <= m / b,
{
    if a >= 0 {
        vstd::arithmetic::div_mod::lemma_div_pos_is_pos(a, b);
        vstd::arithmetic::div_mod::lemma_div_is_ordered(a, m, b);
    } else {
        vstd::arithmetic::div_mod::lemma_div_pos_is_pos(-a, b);
        vstd::arithmetic::div_mod::lemma_div_is_ordered(-a, m, b);
    }
}

fn accel_term(c: i64, dt: i64) -> (r: i64)
    requires
        -20_000_500 <= c <= 20_000_500,
        0 <= dt <= MAX_TICK_MILLIS,
    ensures
        r == spec_accel_term(c as int, dt as int),
        -100_002_500 <= r <= 100_002_500,
{
    proof {
        assert(-100_002_500 <= (c as int) * 5 <= 100_002_500 && -100_002_500_000 <= (c as int) * 5
            * (dt as int) <= 100_002_500_000 && -100_002_500_000_000 <= (c as int) * 5 * (dt
            as int) * (dt as int) <= 100_002_500_000_000) by (nonlinear_arith)
            requires
                -20_000_500 <= c <= 20_000_500,
                0 <= dt <= 1000,
        ;
        lemma_tdiv_bound((c as int) * 5 * (dt as int) * (dt as int), 1_000_000,
            100_002_500_000_000);
    }
    div_trunc(c * 5 * dt * dt, 1_000_000)
}

/// Accelerate toward the offset `rel` with the position-seeking
/// pseudo-gravity.
pub fn accel(vel: Vec3, rel: Vec3, dt: i64) -> (r: Vec3)
    requires
        within(vel, VELOCITY_LIMIT_MILLI as int),
        within(rel, 20_000_500),
        0 <= dt <= MAX_TICK_MILLIS,
    ensures
        r == spec_accel(vel, rel, dt as int),
        within(r, 1_200_002_500),
{
    let tx = accel_term(rel.x, dt);
    let ty = accel_term(rel.y, dt);
    let tz = accel_term(rel.z, dt);
    Vec3 { x: vel.x + tx, y: vel.y + ty, z: vel.z + tz }
}

// ------------------------------------------------------------------
// Speed clamp.

/// Multiply every component by 1000 when the squared norm is still below
/// `10^12`; the speed rescale needs that headroom for exact rounding.
pub open spec fn spec_upscale_step(v: Vec3) -> Vec3 {
    if norm_sq(v) < 1_000_000_000_000 {
        Vec3 { x: (v.x * 1000) as i64, y: (v.y * 1000) as i64, z: (v.z * 1000) as i64 }
    } else {
        v
    }
}

/// Velocity after the speed clamp: the zero vector and speeds already in
/// `[MIN, MAX]` pass unchanged; anything else is rescaled along its own
/// direction to a target just inside the violated end of the band.
pub open spec fn spec_clamp_speed(v: Vec3) -> Vec3 {
    let m2 = norm_sq(v);
    if m2 == 0 {
        v
    } else if MIN_STALK_SPEED_SQ <= m2 <= MAX_STALK_SPEED_SQ {
        v
    } else {
        let u = spec_upscale_step(spec_upscale_step(v));
        let t: int = if m2 < MIN_STALK_SPEED_SQ {
            CLAMP_LO_TARGET_MILLI as int
        } else {
            CLAMP_HI_TARGET_MILLI as int
        };
        spec_with_length(u, t)
    }
}

/// What one upscale step does: exact norm scaling, exact components.
proof fn lemma_upscale_step(v: Vec3)
    requires
        within(v, 1_250_000_000),
    ensures
        norm_sq(v) >= 1_000_000_000_000 ==> spec_upscale_step(v) == v,
        norm_sq(v) < 1_000_000_000_000 ==> within(v, 1_000_000) && norm_sq(spec_upscale_step(v))
            == 1_000_000 * norm_sq(v),
        within(spec_upscale_step(v), 1_250_000_000),
{
    lemma_norm_sq_bound(v, 1_250_000_000);
    if norm_sq(v) < 1_000_000_000_000 {
        lemma_sqrt_floor_exists(norm_sq(v));
        let s = sqrt_floor(norm_sq(v));
        assert(s < 1_000_000) by (nonlinear_arith)
            requires
                0 <= s,
                s * s <= norm_sq(v),
                norm_sq(v) < 1_000_000_000_000,
        ;
        lemma_component_le_sqrt(v, s);
        let w = spec_upscale_step(v);
        assert(w.x == v.x * 1000 && w.y == v.y * 1000 && w.z == v.z * 1000);
        lemma_scale1000_norm(v, w);
    }
}

/// The speed clamp law: every nonzero velocity is clamped into the
/// stalking band `[MIN_STALK_SPEED, MAX_STALK_SPEED]`, measured by the
/// squared norm.
pub proof fn lemma_clamp_speed_band(v: Vec3)
    requires
        within(v, 1_250_000_000),
        norm_sq(v) >= 1,
    ensures
        MIN_STALK_SPEED_SQ <= norm_sq(spec_clamp_speed(v)) <= MAX_STALK_SPEED_SQ,
        within(spec_clamp_speed(v), MAX_STALK_SPEED_MILLI as int),
{
    lemma_norm_sq_bound(v, 1_250_000_000);
    if MIN_STALK_SPEED_SQ <= norm_sq(v) <= MAX_STALK_SPEED_SQ {
        lemma_sqrt_floor_exists(norm_sq(v));
        let s = sqrt_floor(norm_sq(v));
        assert(s <= 11111) by (nonlinear_arith)
            requires
                0 <= s,
                s * s <= norm_sq(v),
                norm_sq(v) <= 123_454_321,
        ;
        lemma_component_le_sqrt(v, s);
    } else {
        lemma_upscale_step(v);
        let u1 = spec_upscale_step(v);
        lemma_upscale_step(u1);
        let u = spec_upscale_step(u1);
        if norm_sq(v) < 1_000_000_000_000 {
            assert(norm_sq(u1) == 1_000_000 * norm_sq(v));
            if norm_sq(u1) < 1_000_000_000_000 {
                assert(norm_sq(u) == 1_000_000 * norm_sq(u1));
            }
        }
        assert(norm_sq(u) >= 1_000_000_000_000);
        let t: int = if norm_sq(v) < MIN_STALK_SPEED_SQ {
            CLAMP_LO_TARGET_MILLI as int
        } else {
            CLAMP_HI_TARGET_MILLI as int
        };
        lemma_with_length_norm_sq(u, t);
        assert(5560 * 5560 - 6 * 5560 - 2 == 30_880_238 && 5560 * 5560 + 2 * 5560 == 30_924_720
            && 11110 * 11110 - 6 * 11110 - 2 == 123_365_438 && 11110 * 11110 + 2 * 11110
            == 123_454_320) by (nonlinear_arith);
    }
}

/// `tdiv(c * 1000, 1000)` gives `c` back.
proof fn lemma_tdiv_cancel(c: int)
    ensures
        tdiv(c * 1000, 1000) == c,
{
    if c >= 0 {
        vstd::arithmetic::div_mod::lemma_div_multiples_vanish(c, 1000);
        assert(c * 1000 == 1000 * c) by (nonlinear_arith);
    } else {
        assert(-(c * 1000) == (-c) * 1000) by (nonlinear_arith);
        assert((-c) * 1000 == 1000 * (-c)) by (nonlinear_arith);
        vstd::arithmetic::div_mod::lemma_div_multiples_vanish(-c, 1000);
    }
}

/// Rotation by a zero angle leaves the vector unchanged.
pub proof fn lemma_rotate_zero(v: Vec3)
    ensures
        spec_rotate_z(v, 0) == v,
{
    assert(spec_cos_milli(0) == 1000 && spec_sin_milli(0) == 0) by {
        assert(0 * 0 == 0) by (nonlinear_arith);
        vstd::arithmetic::div_mod::lemma_div_of0(2000);
        vstd::arithmetic::div_mod::lemma_div_of0(24_000_000_000);
        vstd::arithmetic::div_mod::lemma_div_of0(6_000_000);
    }
    assert(v.x * 0 == 0 && v.y * 0 == 0) by (nonlinear_arith);
    lemma_tdiv_cancel(v.x as int);
    lemma_tdiv_cancel(v.y as int);
    assert(spec_rotate_z(v, 0) =~= v);
}

/// Componentwise bound for the spec-level acceleration.
pub proof fn lemma_accel_within(vel: Vec3, rel: Vec3, dt: int)
    requires
        within(vel, 1_100_000_000),
        within(rel, 20_000_500),
        0 <= dt <= 1000,
    ensures
        within(spec_accel(vel, rel, dt), 1_200_002_500),
{
    lemma_accel_term_bound(rel.x as int, dt);
    lemma_accel_term_bound(rel.y as int, dt);
    lemma_accel_term_bound(rel.z as int, dt);
}

proof fn lemma_accel_term_bound(c: int, dt: int)
    requires
        -20_000_500 <= c <= 20_000_500,
        0 <= dt <= 1000,
    ensures
        -100_002_500 <= spec_accel_term(c, dt) <= 100_002_500,
{
    assert(-100_002_500_000_000 <= c * 5 * dt * dt <= 100_002_500_000_000) by (nonlinear_arith)
        requires
            -20_000_500 <= c <= 20_000_500,
            0 <= dt <= 1000,
    ;
    lemma_tdiv_bound(c * 5 * dt * dt, 1_000_000, 100_002_500_000_000);
}

proof fn lemma_scale1000_norm(v: Vec3, w: Vec3)
    requires
        w.x == v.x * 1000,
        w.y == v.y * 1000,
        w.z == v.z * 1000,
    ensures
        norm_sq(w) == 1_000_000 * norm_sq(v),
{
    assert((v.x * 1000) * (v.x * 1000) == 1_000_000 * (v.x * v.x)) by (nonlinear_arith);
    assert((v.y * 1000) * (v.y * 1000) == 1_000_000 * (v.y * v.y)) by (nonlinear_arith);
    assert((v.z * 1000) * (v.z * 1000) == 1_000_000 * (v.z * v.z)) by (nonlinear_arith);
}

fn upscale_step(v: Vec3) -> (r: Vec3)
    requires
        within(v, 1_250_000_000),
    ensures
        r == spec_upscale_step(v),
        norm_sq(v) < 1_000_000_000_000 ==> norm_sq(r) == 1_000_000 * norm_sq(v),
        norm_sq(v) >= 1_000_000_000_000 ==> r == v,
        within(r, 1_250_000_000),
    {
    proof {
        lemma_norm_sq_bound(v, 1_250_000_000);
    }
    let m2 = v.norm_sq_exec();
    if m2 < 1_000_000_000_000 {
        proof {
            lemma_sqrt_floor_exists(norm_sq(v));
            let s = sqrt_floor(norm_sq(v));
            assert(s < 1_000_000) by (nonlinear_arith)
                requires
                    0 <= s,
                    s * s <= norm_sq(v),
                    norm_sq(v) < 1_000_000_000_000,
            ;
            lemma_component_le_sqrt(v, s);
        }
        let r = Vec3 { x: v.x * 1000, y: v.y * 1000, z: v.z * 1000 };
        proof {
            lemma_scale1000_norm(v, r);
        }
        r
    } else {
        v
    }
}

/// Clamp the speed into `[MIN_STALK_SPEED, MAX_STALK_SPEED]`.  A zero
/// velocity passes through unchanged: the control law leaves rest alone
/// rather than inventing a direction.
pub fn clamp_speed(v: Vec3) -> (r: Vec3)
    requires
        within(v, 1_250_000_000),
    ensures
        r == spec_clamp_speed(v),
        norm_sq(v) == 0 ==> r == v,
        norm_sq(v) >= 1 ==> MIN_STALK_SPEED_SQ <= norm_sq(r) <= MAX_STALK_SPEED_SQ,
        within(r, MAX_STALK_SPEED_MILLI as int),
{
    proof {
        lemma_norm_sq_bound(v, 1_250_000_000);
    }
    let m2 = v.norm_sq_exec();
    if m2 == 0 {
        proof {
            assert(v.x == 0 && v.y == 0 && v.z == 0) by (nonlinear_arith)
                requires
                    v.x * v.x + v.y * v.y + v.z * v.z == 0,
            ;
        }
        return v;
    }
    if MIN_STALK_SPEED_SQ <= m2 && m2 <= MAX_STALK_SPEED_SQ {
        proof {
            lemma_sqrt_floor_exists(norm_sq(v));
            let s = sqrt_floor(norm_sq(v));
            assert(s <= 11111) by (nonlinear_arith)
                requires
                    0 <= s,
                    s * s <= norm_sq(v),
                    norm_sq(v) <= 123_454_321,
            ;
            lemma_component_le_sqrt(v, s);
        }
        return v;
    }
    let below = m2 < MIN_STALK_SPEED_SQ;
    let u1 = upscale_step(v);
    let u = upscale_step(u1);
    proof {
        if norm_sq(v) < 1_000_000_000_000 {
            assert(norm_sq(u1) == 1_000_000 * norm_sq(v));
            if norm_sq(u1) < 1_000_000_000_000 {
                assert(norm_sq(u) == 1_000_000 * norm_sq(u1));
            }
        }
    }
    assert(norm_sq(u) >= 1_000_000_000_000);
    assert(norm_sq(u) <= 3 * (1_250_000_000 * 1_250_000_000)) by {
        lemma_norm_sq_bound(u, 1_250_000_000);
    }
    let t: i64 = if below {
        CLAMP_LO_TARGET_MILLI
    } else {
        CLAMP_HI_TARGET_MILLI
    };
    let w = with_length(u, t);
    proof {
        lemma_with_length_norm_sq(u, t as int);
    }
    w
}

// ------------------------------------------------------------------
// Hover correction.

/// Upward impulse the hover spring adds for an effective clearance `c`
/// over a tick of `dt` milli-seconds: zero at or above the hover height,
/// and the squared deficit scaled by the tick below it.
pub open spec fn spec_hover_impulse(c: int, dt: int) -> int {
    let deficit: int = if c < HOVER_HEIGHT_MILLI {
        HOVER_HEIGHT_MILLI - c
    } else {
        0
    };
    (deficit * deficit * dt) / 1_000_000
}

/// The ground correction: how far to snap the agent up so the probe stays
/// above the floor, and the vertical velocity after the hover impulse.
pub open spec fn spec_hover(vz: int, ground: Option<i64>, dt: int) -> (int, int) {
    let probe: int = match ground {
        Some(d) => d as int,
        None => NO_HIT_DISTANCE_MILLI as int,
    };
    let raw = probe - RAY_PRE_LEN_MILLI;
    let snap: int = if raw < 0 {
        -raw
    } else {
        0
    };
    let clearance = raw + vz;
    (snap, vz + spec_hover_impulse(clearance, dt))
}

/// The hover correction is one-sided: no impulse at or above the hover
/// height, and below it the impulse follows the squared deficit, growing
/// as the clearance shrinks.
pub proof fn lemma_hover_one_sided(c1: int, c2: int, dt: int)
    requires
        c1 <= c2,
        0 <= dt,
    ensures
        c2 >= 8000 ==> spec_hover_impulse(c2, dt) == 0,
        spec_hover_impulse(c1, dt) >= spec_hover_impulse(c2, dt) >= 0,
{
    let d1: int = if c1 < 8000 {
        8000 - c1
    } else {
        0
    };
    let d2: int = if c2 < 8000 {
        8000 - c2
    } else {
        0
    };
    assert(d1 * d1 * dt >= d2 * d2 * dt >= 0) by (nonlinear_arith)
        requires
            d1 >= d2 >= 0,
            dt >= 0,
    ;
    vstd::arithmetic::div_mod::lemma_div_is_ordered(d2 * d2 * dt, d1 * d1 * dt, 1_000_000);
    vstd::arithmetic::div_mod::lemma_div_pos_is_pos(d2 * d2 * dt, 1_000_000);
    if c2 >= 8000 {
        assert(d2 == 0);
        assert(d2 * d2 * dt == 0) by (nonlinear_arith)
            requires
                d2 == 0,
        ;
        vstd::arithmetic::div_mod::lemma_div_of0(1_000_000);
    }
}

/// Below the hover height the impulse is strictly positive as soon as the
/// squared deficit times the tick clears the fixed-point resolution.
pub proof fn lemma_hover_positive(c: int, dt: int)
    requires
        c < 8000,
        (8000 - c) * (8000 - c) * dt >= 1_000_000,
    ensures
        spec_hover_impulse(c, dt) >= 1,
{
    vstd::arithmetic::div_mod::lemma_div_is_ordered(
        1_000_000,
        (8000 - c) * (8000 - c) * dt,
        1_000_000,
    );
}

/// Apply the ground correction for one tick.
pub fn hover(vz: i64, ground: Option<i64>, dt: i64) -> (r: (i64, i64))
    requires
        -20_000 <= vz <= 20_000,
        0 <= dt <= MAX_TICK_MILLIS,
        ground matches Some(d) ==> -PROBE_LIMIT_MILLI <= d <= PROBE_LIMIT_MILLI,
    ensures
        (r.0 as int, r.1 as int) == spec_hover(vz as int, ground, dt as int),
        r.0 >= 0,
        vz <= r.1 <= 1_066_000_000,
{
    let probe: i64 = match ground {
        Some(d) => d,
        None => NO_HIT_DISTANCE_MILLI,
    };
    let raw = probe - RAY_PRE_LEN_MILLI;
    let snap: i64 = if raw < 0 {
        -raw
    } else {
        0
    };
    let clearance = raw + vz;
    let deficit: i64 = if clearance < HOVER_HEIGHT_MILLI {
        HOVER_HEIGHT_MILLI - clearance
    } else {
        0
    };
    proof {
        assert(0 <= (deficit as int) * (deficit as int) <= 1_065_024_000_000 && 0 <= (deficit
            as int) * (deficit as int) * (dt as int) <= 1_065_024_000_000_000)
            by (nonlinear_arith)
            requires
                0 <= deficit <= 1_032_000,
                0 <= dt <= 1000,
        ;
        vstd::arithmetic::div_mod::lemma_div_pos_is_pos(
            (deficit as int) * (deficit as int) * (dt as int),
            1_000_000,
        );
        vstd::arithmetic::div_mod::lemma_div_is_ordered(
            (deficit as int) * (deficit as int) * (dt as int),
            1_065_024_000_000_000,
            1_000_000,
        );
    }
    let impulse = (deficit * deficit * dt) / 1_000_000;
    (snap, vz + impulse)
}

// ------------------------------------------------------------------
// Yaw rotation and facing.

/// The yaw angle one tick of heading bias produces, milli-radians.
pub open spec fn spec_turn_angle(direction: int, dt: int) -> int {
    tdiv(direction * dt, 10_000)
}

pub fn turn_angle(direction: i64, dt: i64) -> (r: i64)
    requires
        -TWO_PI_MILLI <= direction <= TWO_PI_MILLI,
        0 <= dt <= MAX_TICK_MILLIS,
    ensures
        r == spec_turn_angle(direction as int, dt as int),
        -629 <= r <= 629,
{
    proof {
        assert(-6_283_000 <= (direction as int) * (dt as int) <= 6_283_000) by (nonlinear_arith)
            requires
                -6283 <= direction <= 6283,
                0 <= dt <= 1000,
        ;
        lemma_tdiv_bound((direction as int) * (dt as int), 10_000, 6_283_000);
    }
    div_trunc(direction * dt, 10_000)
}

/// Rotation of a vector about the vertical axis by `angle` milli-radians.
pub open spec fn spec_rotate_z(v: Vec3, angle: int) -> Vec3 {
    let c = spec_cos_milli(angle);
    let s = spec_sin_milli(angle);
    Vec3 {
        x: tdiv(v.x * c - v.y * s, 1000) as i64,
        y: tdiv(v.x * s + v.y * c, 1000) as i64,
        z: v.z,
    }
}

pub fn rotate_z(v: Vec3, angle: i64) -> (r: Vec3)
    requires
        -50_000 <= v.x <= 50_000,
        -50_000 <= v.y <= 50_000,
        -1000 <= angle <= 1000,
    ensures
        r == spec_rotate_z(v, angle as int),
        -103_000 <= r.x <= 103_000,
        -103_000 <= r.y <= 103_000,
        r.z == v.z,
{
    let c = cos_milli(angle);
    let s = sin_milli(angle);
    proof {
        assert(-52_050_000 <= (v.x as int) * (c as int) <= 52_050_000 && -52_050_000 <= (v.y
            as int) * (c as int) <= 52_050_000 && -50_000_000 <= (v.x as int) * (s as int)
            <= 50_000_000 && -50_000_000 <= (v.y as int) * (s as int) <= 50_000_000)
            by (nonlinear_arith)
            requires
                -50_000 <= v.x <= 50_000,
                -50_000 <= v.y <= 50_000,
                -1000 <= s <= 1000,
                500 <= c <= 1041,
        ;
        lemma_tdiv_bound((v.x as int) * (c as int) - (v.y as int) * (s as int), 1000, 103_000_000);
        lemma_tdiv_bound((v.x as int) * (s as int) + (v.y as int) * (c as int), 1000, 103_000_000);
    }
    let rx = div_trunc(v.x * c - v.y * s, 1000);
    let ry = div_trunc(v.x * s + v.y * c, 1000);
    Vec3 { x: rx, y: ry, z: v.z }
}

/// The direction the agent faces: opposite to its velocity, as a unit
/// vector in milli-units; no facing for a zero velocity.
pub open spec fn spec_facing(v: Vec3) -> Option<Vec3> {
    if norm_sq(v) == 0 {
        None
    } else {
        Some(spec_with_length(spec_neg(v), 1000))
    }
}

pub fn facing_direction(v: Vec3) -> (r: Option<Vec3>)
    requires
        within(v, 1_500_000_000),
    ensures
        r == spec_facing(v),
        r matches Some(f) ==> within(f, 1000),
{
    proof {
        lemma_norm_sq_bound(v, 1_500_000_000);
    }
    let m2 = v.norm_sq_exec();
    if m2 == 0 {
        return None;
    }
    let n = v.negate();
    proof {
        lemma_neg_norm_sq(v);
    }
    Some(with_length(n, 1000))
}

/// Facing round trip: for a nonzero velocity the facing direction is
/// exactly the negation of the velocity's own unit direction, so negating
/// it recovers the direction of motion.
pub proof fn lemma_facing_round_trip(v: Vec3)
    requires
        norm_sq(v) >= 1,
        within(v, 2_000_000_000),
    ensures
        spec_facing(v) matches Some(f) && spec_neg(f) == spec_with_length(v, 1000),
{
    lemma_neg_norm_sq(v);
    lemma_rescale_neg(v, 1000);
}

} // verus!
