//! Sound emitters: a speaker has a base volume and an active flag, and is
//! perceived with an exponential falloff of loudness over distance.

use vstd::prelude::*;

use crate::vec3::Vec3;
use crate::vec3::norm_sq;
use crate::vec3::within;
use crate::fxp::isqrt;
use crate::fxp::sqrt_floor;

verus! {

/// Largest base volume the loudness law is specified for (milli-units).
pub const VOLUME_LIMIT_MILLI: i64 = 1_000_000_000;

/// Largest coordinate magnitude (milli-units) the perception model admits.
pub const POSITION_LIMIT_MILLI: i64 = 10_000_000;

/// A positioned sound source's audible properties.  The position itself is
/// carried alongside by the caller.
#[derive(Clone, Copy, Debug, PartialEq, Eq, Structural)]
pub struct Speaker {
    /// Base volume in milli-units (4000 is the stock speaker's 4.0).
    pub volume: i64,
    /// An inactive speaker is never heard.
    pub active: bool,
}

impl Default for Speaker {
    fn default() -> (s: Speaker)
        ensures
            s.volume == 4000,
            s.active,
    {
        Speaker { volume: 4000, active: true }
    }
}

/// `10^n`.
pub open spec fn pow10(n: nat) -> int
    decreases n,
{
    if n == 0 {
        1
    } else {
        10 * pow10((n - 1) as nat)
    }
}

/// Loudness (micro-units) of a base volume `vol` (milli-units) heard at
/// `dist` (milli-units): the fixed-point rendering of `vol / 10^d` with
/// `d = dist/1000`, where the fractional part of the exponent is
/// interpolated linearly between neighbouring powers of ten.  Beyond
/// thirteen whole units of distance the quotient vanishes for every
/// admissible volume.
pub open spec fn loudness_at(vol: int, dist: int) -> int {
    let q = dist / 1000;
    let r = dist % 1000;
    if q >= 13 {
        0
    } else {
        (vol * 1_000_000) / (pow10(q as nat) * (1000 + 9 * r))
    }
}

/// Perceived loudness of a speaker over a relative offset `d`: zero when
/// inactive, otherwise the falloff law at the rounded-down distance.
pub open spec fn spec_loudness(s: Speaker, d: Vec3) -> int {
    if !s.active {
        0
    } else {
        loudness_at(s.volume as int, sqrt_floor(norm_sq(d)))
    }
}

fn pow10_exec(q: i64) -> (r: i64)
    requires
        0 <= q <= 12,
    ensures
        r == pow10(q as nat),
        1 <= r <= 1_000_000_000_000,
{
    proof {
        reveal_with_fuel(pow10, 14);
    }
    if q == 0 {
        1
    } else if q == 1 {
        10
    } else if q == 2 {
        100
    } else if q == 3 {
        1_000
    } else if q == 4 {
        10_000
    } else if q == 5 {
        100_000
    } else if q == 6 {
        1_000_000
    } else if q == 7 {
        10_000_000
    } else if q == 8 {
        100_000_000
    } else if q == 9 {
        1_000_000_000
    } else if q == 10 {
        10_000_000_000
    } else if q == 11 {
        100_000_000_000
    } else {
        1_000_000_000_000
    }
}

impl Speaker {
    /// How loud this speaker sounds from the given relative offset.
    pub fn loudness(&self, distance: &Vec3) -> (r: i64)
        requires
            0 <= self.volume <= VOLUME_LIMIT_MILLI,
            within(*distance, 3 * POSITION_LIMIT_MILLI),
        ensures
            r == spec_loudness(*self, *distance),
            0 <= r <= 1_000_000_000_000,
    {
        if !self.active {
            return 0;
        }
        let m2 = distance.norm_sq_exec();
        let d = isqrt(m2);
        let q = d / 1000;
        let rem = d % 1000;
        if q >= 13 {
            return 0;
        }
        let p = pow10_exec(q);
        proof {
            vstd::arithmetic::div_mod::lemma_mod_division_less_than_divisor(d as int, 1000);
            assert(1000 <= (p as int) * (1000 + 9 * (rem as int)) <= 9_991_000_000_000_000)
                by (nonlinear_arith)
                requires
                    1 <= p <= 1_000_000_000_000,
                    0 <= rem < 1000,
            ;
        }
        let denom = p * (1000 + 9 * rem);
        let loud = (self.volume * 1_000_000) / denom;
        assert(0 <= loud <= 1_000_000_000_000) by {
            assert(self.volume * 1_000_000 <= 1_000_000_000_000_000);
            vstd::arithmetic::div_mod::lemma_div_pos_is_pos(self.volume * 1_000_000, denom as int);
            vstd::arithmetic::div_mod::lemma_div_is_ordered_by_denominator(
                self.volume * 1_000_000,
                1000,
                denom as int,
            );
            vstd::arithmetic::div_mod::lemma_div_is_ordered(
                self.volume * 1_000_000,
                1_000_000_000_000_000,
                1000,
            );
        }
        loud
    }
}

} // verus!
