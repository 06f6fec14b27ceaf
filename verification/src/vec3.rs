//! Three-component vectors in milli-unit fixed point, with the exact
//! integer operations the steering law is specified over.

use vstd::prelude::*;

use crate::fxp::is_sqrt_floor;
use crate::fxp::lemma_sqrt_floor_exists;
use crate::fxp::sqrt_floor;
use crate::fxp::tdiv;
use crate::fxp::div_trunc;
use crate::fxp::isqrt;

verus! {

/// A vector whose components are lengths in milli-units (1000 = one unit).
#[derive(Clone, Copy, Debug, PartialEq, Eq, Structural)]
pub struct Vec3 {
    pub x: i64,
    pub y: i64,
    pub z: i64,
}

/// Squared Euclidean norm.
pub open spec fn norm_sq(v: Vec3) -> int {
    v.x * v.x + v.y * v.y + v.z * v.z
}

pub open spec fn spec_minus(a: Vec3, b: Vec3) -> Vec3 {
    Vec3 { x: (a.x - b.x) as i64, y: (a.y - b.y) as i64, z: (a.z - b.z) as i64 }
}

pub open spec fn spec_neg(a: Vec3) -> Vec3 {
    Vec3 { x: (-a.x) as i64, y: (-a.y) as i64, z: (-a.z) as i64 }
}

/// All components within `[-b, b]`.
pub open spec fn within(v: Vec3, b: int) -> bool {
    &&& -b <= v.x <= b
    &&& -b <= v.y <= b
    &&& -b <= v.z <= b
}

impl Vec3 {
    pub fn new(x: i64, y: i64, z: i64) -> (r: Vec3)
        ensures
            r == (Vec3 { x, y, z }),
    {
        Vec3 { x, y, z }
    }

    pub fn minus(self, o: Vec3) -> (r: Vec3)
        requires
            i64::MIN <= self.x - o.x <= i64::MAX,
            i64::MIN <= self.y - o.y <= i64::MAX,
            i64::MIN <= self.z - o.z <= i64::MAX,
        ensures
            r == spec_minus(self, o),
    {
        Vec3 { x: self.x - o.x, y: self.y - o.y, z: self.z - o.z }
    }

    pub fn negate(self) -> (r: Vec3)
        requires
            self.x > i64::MIN,
            self.y > i64::MIN,
            self.z > i64::MIN,
        ensures
            r == spec_neg(self),
    {
        Vec3 { x: -self.x, y: -self.y, z: -self.z }
    }

    /// The squared norm, exact.
    pub fn norm_sq_exec(self) -> (r: i64)
        requires
            within(self, 1_750_000_000),
        ensures
            r == norm_sq(self),
            r >= 0,
    {
        proof {
            lemma_norm_sq_bound(self, 1_750_000_000);
        }
        self.x * self.x + self.y * self.y + self.z * self.z
    }
}

/// `v` rescaled along its own direction to length (about) `t`:
/// each component is multiplied by `t` and divided, rounding toward zero,
/// by the rounded-down norm of `v`.
pub open spec fn spec_with_length(v: Vec3, t: int) -> Vec3 {
    let s = sqrt_floor(norm_sq(v));
    Vec3 {
        x: tdiv(v.x * t, s) as i64,
        y: tdiv(v.y * t, s) as i64,
        z: tdiv(v.z * t, s) as i64,
    }
}

/// Every component of a vector is bounded by the rounded-down norm.
pub proof fn lemma_component_le_sqrt(v: Vec3, s: int)
    requires
        is_sqrt_floor(norm_sq(v), s),
    ensures
        -s <= v.x <= s,
        -s <= v.y <= s,
        -s <= v.z <= s,
{
    assert(-s <= v.x <= s && -s <= v.y <= s && -s <= v.z <= s) by (nonlinear_arith)
        requires
            0 <= s,
            v.x * v.x + v.y * v.y + v.z * v.z < (s + 1) * (s + 1),
    ;
}

/// For `0 <= a <= s` and `0 <= t <= s`, the scaled quotient `q = a*t/s`
/// stays within `[0, t]` and its square brackets `a^2 t^2 / s^2`.
proof fn lemma_scaled_div_sq_bounds(a: int, t: int, s: int)
    requires
        0 <= a <= s,
        1 <= s,
        0 <= t,
    ensures
        ({
            let q = (a * t) / s;
            &&& 0 <= q <= t
            &&& (q * q) * (s * s) <= (a * a) * (t * t)
            &&& (a * a) * (t * t) < ((q + 1) * (q + 1)) * (s * s)
        }),
{
    let u = a * t;
    let q = u / s;
    let r = u % s;
    assert(0 <= u <= s * t) by (nonlinear_arith)
        requires
            u == a * t,
            0 <= a <= s,
            0 <= t,
    ;
    vstd::arithmetic::div_mod::lemma_fundamental_div_mod(u, s);
    vstd::arithmetic::div_mod::lemma_mod_division_less_than_divisor(u, s);
    assert(u == s * q + r && 0 <= r < s);
    assert(q >= 0) by (nonlinear_arith)
        requires
            s * q + r >= 0,
            0 <= r < s,
            1 <= s,
    ;
    assert(q <= t) by (nonlinear_arith)
        requires
            s * q + r <= s * t,
            0 <= r,
            1 <= s,
            0 <= t,
    ;
    assert((q * q) * (s * s) <= u * u) by (nonlinear_arith)
        requires
            u == s * q + r,
            0 <= r,
            0 <= q,
            1 <= s,
    ;
    assert(u * u < ((q + 1) * (q + 1)) * (s * s)) by (nonlinear_arith)
        requires
            u == s * q + r,
            0 <= r < s,
            0 <= q,
            1 <= s,
            0 <= u,
    ;
    assert(u * u == (a * a) * (t * t)) by (nonlinear_arith)
        requires
            u == a * t,
    ;
}

/// The squared quotient of a truncating scaled division is the same as for
/// the absolute value of the component.
proof fn lemma_tdiv_sq(c: int, t: int, s: int)
    requires
        1 <= s,
        0 <= t,
    ensures
        c >= 0 ==> tdiv(c * t, s) == (c * t) / s,
        c < 0 ==> tdiv(c * t, s) == -(((-c) * t) / s),
        tdiv(c * t, s) * tdiv(c * t, s) == ({
            let a = if c >= 0 {
                c
            } else {
                -c
            };
            ((a * t) / s) * ((a * t) / s)
        }),
{
    if c < 0 {
        assert(-(c * t) == (-c) * t) by (nonlinear_arith);
        assert(c * t <= 0) by (nonlinear_arith)
            requires
                c < 0,
                0 <= t,
        ;
        if c * t == 0 {
            assert((-c) * t == 0);
            assert(tdiv(c * t, s) == 0);
            assert(((-c) * t) / s == 0);
        } else {
            assert(tdiv(c * t, s) == -((-(c * t)) / s));
        }
        let q = ((-c) * t) / s;
        assert((-q) * (-q) == q * q) by (nonlinear_arith);
    }
}

/// When the squared norm is at least 10^12 (so the relative rounding error
/// of the norm is tiny), rescaling to target length `t` lands the squared
/// norm in a narrow band around `t^2`.
pub proof fn lemma_with_length_norm_sq(v: Vec3, t: int)
    requires
        1_000_000_000_000 <= norm_sq(v),
        1 <= t <= 20000,
    ensures
        ({
            let w = spec_with_length(v, t);
            &&& t * t - 6 * t - 2 <= norm_sq(w)
            &&& norm_sq(w) <= t * t + 2 * t
            &&& within(w, t)
        }),
{
    let m2 = norm_sq(v);
    lemma_sqrt_floor_exists(m2);
    let s = sqrt_floor(m2);
    assert(s >= 1_000_000) by (nonlinear_arith)
        requires
            0 <= s,
            m2 < (s + 1) * (s + 1),
            m2 >= 1_000_000_000_000,
    ;
    lemma_component_le_sqrt(v, s);
    let ax = if v.x >= 0 { v.x as int } else { -(v.x as int) };
    let ay = if v.y >= 0 { v.y as int } else { -(v.y as int) };
    let az = if v.z >= 0 { v.z as int } else { -(v.z as int) };
    lemma_scaled_div_sq_bounds(ax, t, s);
    lemma_scaled_div_sq_bounds(ay, t, s);
    lemma_scaled_div_sq_bounds(az, t, s);
    lemma_tdiv_sq(v.x as int, t, s);
    lemma_tdiv_sq(v.y as int, t, s);
    lemma_tdiv_sq(v.z as int, t, s);
    let qx = (ax * t) / s;
    let qy = (ay * t) / s;
    let qz = (az * t) / s;
    let w = spec_with_length(v, t);
    assert(w.x == tdiv(v.x * t, s) && w.y == tdiv(v.y * t, s) && w.z == tdiv(v.z * t, s));
    assert(w.x * w.x == qx * qx && w.y * w.y == qy * qy && w.z * w.z == qz * qz);
    assert(-t <= w.x <= t && -t <= w.y <= t && -t <= w.z <= t) by (nonlinear_arith)
        requires
            w.x * w.x == qx * qx,
            w.y * w.y == qy * qy,
            w.z * w.z == qz * qz,
            0 <= qx <= t,
            0 <= qy <= t,
            0 <= qz <= t,
            0 <= t,
    ;
    let bigw = qx * qx + qy * qy + qz * qz;
    assert(norm_sq(w) == bigw);
    assert(ax * ax == v.x * v.x && ay * ay == v.y * v.y && az * az == v.z * v.z)
        by (nonlinear_arith)
        requires
            ax == if v.x >= 0 { v.x as int } else { -(v.x as int) },
            ay == if v.y >= 0 { v.y as int } else { -(v.y as int) },
            az == if v.z >= 0 { v.z as int } else { -(v.z as int) },
    ;
    // Upper bound: bigw * s^2 <= t^2 * m2 <= t^2 * ((s+1)^2 - 1) <= s^2 * (t+1)^2 - t^2.
    assert(bigw * (s * s) <= m2 * (t * t)) by (nonlinear_arith)
        requires
            (qx * qx) * (s * s) <= (ax * ax) * (t * t),
            (qy * qy) * (s * s) <= (ay * ay) * (t * t),
            (qz * qz) * (s * s) <= (az * az) * (t * t),
            bigw == qx * qx + qy * qy + qz * qz,
            m2 == ax * ax + ay * ay + az * az,
    ;
    assert(m2 * (t * t) <= ((s + 1) * (s + 1) - 1) * (t * t)) by (nonlinear_arith)
        requires
            m2 <= (s + 1) * (s + 1) - 1,
            0 <= t,
    ;
    assert(((s + 1) * (s + 1) - 1) * (t * t) < (s * s) * ((t + 1) * (t + 1))) by (nonlinear_arith)
        requires
            1 <= t <= s,
    ;
    assert(bigw <= t * t + 2 * t) by (nonlinear_arith)
        requires
            bigw * (s * s) < (s * s) * ((t + 1) * (t + 1)),
            1 <= s,
    ;
    // Lower bound: t^2 * s^2 <= t^2 * m2 < ((q+1)^2 sums) * s^2.
    assert(m2 * (t * t) < (((qx + 1) * (qx + 1)) + ((qy + 1) * (qy + 1)) + ((qz + 1) * (qz + 1)))
        * (s * s)) by (nonlinear_arith)
        requires
            (ax * ax) * (t * t) < ((qx + 1) * (qx + 1)) * (s * s),
            (ay * ay) * (t * t) < ((qy + 1) * (qy + 1)) * (s * s),
            (az * az) * (t * t) < ((qz + 1) * (qz + 1)) * (s * s),
            m2 == ax * ax + ay * ay + az * az,
    ;
    assert((s * s) * (t * t) <= m2 * (t * t)) by (nonlinear_arith)
        requires
            s * s <= m2,
            0 <= t,
    ;
    assert(t * t < ((qx + 1) * (qx + 1)) + ((qy + 1) * (qy + 1)) + ((qz + 1) * (qz + 1)))
        by (nonlinear_arith)
        requires
            (s * s) * (t * t) < (((qx + 1) * (qx + 1)) + ((qy + 1) * (qy + 1)) + ((qz + 1) * (qz
                + 1))) * (s * s),
            1 <= s,
    ;
    assert(t * t < bigw + 2 * (qx + qy + qz) + 3) by (nonlinear_arith)
        requires
            t * t < ((qx + 1) * (qx + 1)) + ((qy + 1) * (qy + 1)) + ((qz + 1) * (qz + 1)),
            bigw == qx * qx + qy * qy + qz * qz,
    ;
    assert(bigw >= t * t - 6 * t - 2);
}

/// Rescale `self` along its own direction to length (about) `t`.
pub fn with_length(self_v: Vec3, t: i64) -> (r: Vec3)
    requires
        within(self_v, 1_750_000_000),
        norm_sq(self_v) >= 1,
        norm_sq(self_v) <= i64::MAX,
        0 <= t <= 20000,
    ensures
        r == spec_with_length(self_v, t as int),
        within(r, t as int),
{
    let m2 = self_v.norm_sq_exec();
    let s = isqrt(m2);
    proof {
        lemma_component_le_sqrt(self_v, s as int);
        assert(s >= 1) by (nonlinear_arith)
            requires
                0 <= s,
                norm_sq(self_v) >= 1,
                norm_sq(self_v) < (s + 1) * (s + 1),
        ;
        lemma_scaled_div_sq_bounds(if self_v.x >= 0 { self_v.x as int } else { -(self_v.x as int) }, t as int, s as int);
        lemma_scaled_div_sq_bounds(if self_v.y >= 0 { self_v.y as int } else { -(self_v.y as int) }, t as int, s as int);
        lemma_scaled_div_sq_bounds(if self_v.z >= 0 { self_v.z as int } else { -(self_v.z as int) }, t as int, s as int);
        lemma_tdiv_sq(self_v.x as int, t as int, s as int);
        lemma_tdiv_sq(self_v.y as int, t as int, s as int);
        lemma_tdiv_sq(self_v.z as int, t as int, s as int);
        assert((self_v.x as int) * (t as int) <= 1_750_000_000 * 20000 && (self_v.x as int) * (t
            as int) >= -(1_750_000_000 * 20000)) by (nonlinear_arith)
            requires
                -1_750_000_000 <= self_v.x <= 1_750_000_000,
                0 <= t <= 20000,
        ;
        assert((self_v.y as int) * (t as int) <= 1_750_000_000 * 20000 && (self_v.y as int) * (t
            as int) >= -(1_750_000_000 * 20000)) by (nonlinear_arith)
            requires
                -1_750_000_000 <= self_v.y <= 1_750_000_000,
                0 <= t <= 20000,
        ;
        assert((self_v.z as int) * (t as int) <= 1_750_000_000 * 20000 && (self_v.z as int) * (t
            as int) >= -(1_750_000_000 * 20000)) by (nonlinear_arith)
            requires
                -1_750_000_000 <= self_v.z <= 1_750_000_000,
                0 <= t <= 20000,
        ;
    }
    let rx = div_trunc(self_v.x * t, s);
    let ry = div_trunc(self_v.y * t, s);
    let rz = div_trunc(self_v.z * t, s);
    proof {
        let sf = sqrt_floor(norm_sq(self_v));
        assert(sf == s as int);
        assert(-t <= rx <= t && -t <= ry <= t && -t <= rz <= t) by (nonlinear_arith)
            requires
                rx * rx == ({
                    let a = if self_v.x >= 0 { self_v.x as int } else { -(self_v.x as int) };
                    ((a * t) / (s as int)) * ((a * t) / (s as int))
                }),
                ry * ry == ({
                    let a = if self_v.y >= 0 { self_v.y as int } else { -(self_v.y as int) };
                    ((a * t) / (s as int)) * ((a * t) / (s as int))
                }),
                rz * rz == ({
                    let a = if self_v.z >= 0 { self_v.z as int } else { -(self_v.z as int) };
                    ((a * t) / (s as int)) * ((a * t) / (s as int))
                }),
                0 <= ({
                    let a = if self_v.x >= 0 { self_v.x as int } else { -(self_v.x as int) };
                    (a * t) / (s as int)
                }) <= t,
                0 <= ({
                    let a = if self_v.y >= 0 { self_v.y as int } else { -(self_v.y as int) };
                    (a * t) / (s as int)
                }) <= t,
                0 <= ({
                    let a = if self_v.z >= 0 { self_v.z as int } else { -(self_v.z as int) };
                    (a * t) / (s as int)
                }) <= t,
                0 <= t,
        ;
    }
    Vec3 { x: rx, y: ry, z: rz }
}

/// Negation leaves the squared norm unchanged.
pub proof fn lemma_neg_norm_sq(v: Vec3)
    requires
        v.x > i64::MIN,
        v.y > i64::MIN,
        v.z > i64::MIN,
    ensures
        norm_sq(spec_neg(v)) == norm_sq(v),
{
    let n = spec_neg(v);
    assert(n.x * n.x == v.x * v.x && n.y * n.y == v.y * v.y && n.z * n.z == v.z * v.z)
        by (nonlinear_arith)
        requires
            n.x == -v.x,
            n.y == -v.y,
            n.z == -v.z,
    ;
}

/// Rescaling the negation of a vector gives the negation of the rescaled
/// vector: the truncating division treats both signs alike.
pub proof fn lemma_rescale_neg(v: Vec3, t: int)
    requires
        norm_sq(v) >= 1,
        within(v, 2_000_000_000),
        0 <= t <= 20000,
    ensures
        spec_neg(spec_with_length(spec_neg(v), t)) == spec_with_length(v, t),
{
    lemma_neg_norm_sq(v);
    lemma_sqrt_floor_exists(norm_sq(v));
    let s = sqrt_floor(norm_sq(v));
    assert(s >= 1) by (nonlinear_arith)
        requires
            0 <= s,
            norm_sq(v) < (s + 1) * (s + 1),
            norm_sq(v) >= 1,
    ;
    let n = spec_neg(v);
    lemma_component_le_sqrt(v, s);
    lemma_rescale_neg_coord(v.x as int, t, s);
    lemma_rescale_neg_coord(v.y as int, t, s);
    lemma_rescale_neg_coord(v.z as int, t, s);
    assert(n.x == -(v.x as int) && n.y == -(v.y as int) && n.z == -(v.z as int));
    assert(spec_neg(spec_with_length(n, t)) =~= spec_with_length(v, t));
}

/// One coordinate of the negation fact: `tdiv(-c*t, s) == -tdiv(c*t, s)`,
/// with both quotients small enough that `i64` casts are exact.
proof fn lemma_rescale_neg_coord(c: int, t: int, s: int)
    requires
        1 <= s,
        0 <= t <= 20000,
        -s <= c <= s,
    ensures
        tdiv((-c) * t, s) == -tdiv(c * t, s),
        -t <= tdiv(c * t, s) <= t,
{
    assert((-c) * t == -(c * t)) by (nonlinear_arith);
    crate::fxp::lemma_tdiv_neg(c * t, s);
    let a = if c >= 0 {
        c
    } else {
        -c
    };
    lemma_scaled_div_sq_bounds(a, t, s);
    lemma_tdiv_sq(c, t, s);
    let q = (a * t) / s;
    assert(tdiv(c * t, s) * tdiv(c * t, s) == q * q);
    assert(-t <= tdiv(c * t, s) <= t) by (nonlinear_arith)
        requires
            tdiv(c * t, s) * tdiv(c * t, s) == q * q,
            0 <= q <= t,
    ;
}

/// Componentwise bound gives a bound on the squared norm.
pub proof fn lemma_norm_sq_bound(v: Vec3, b: int)
    requires
        0 <= b,
        within(v, b),
    ensures
        0 <= norm_sq(v) <= 3 * (b * b),
        0 <= v.x * v.x <= b * b,
        0 <= v.y * v.y <= b * b,
        0 <= v.z * v.z <= b * b,
{
    assert(0 <= v.x * v.x <= b * b && 0 <= v.y * v.y <= b * b && 0 <= v.z * v.z <= b * b)
        by (nonlinear_arith)
        requires
            -b <= v.x <= b,
            -b <= v.y <= b,
            -b <= v.z <= b,
            0 <= b,
    ;
}

} // verus!
