//! Fixed-point scalars.
//!
//! Every quantity the simulator handles — positions, velocities,
//! accelerations, tilt angles — is an [`Fx`]: a signed count of millionths
//! of a unit. Addition and multiplication saturate at the ends of the
//! `i64` range; division truncates toward zero.

use vstd::prelude::*;

verus! {

/// Raw steps per whole unit: an `Fx` stores millionths.
pub const SCALE: i64 = 1_000_000;

/// A fixed-point scalar with six decimal places, stored as a count of
/// millionths of a unit.
#[derive(Clone, Copy, Debug, PartialEq, Eq, Structural)]
pub struct Fx {
    pub raw: i64,
}

/// Clamp an unbounded integer into the `i64` range.
pub open spec fn sat64(v: int) -> int {
    if v > i64::MAX {
        i64::MAX as int
    } else if v < i64::MIN {
        i64::MIN as int
    } else {
        v
    }
}

/// Division truncated toward zero, for a positive divisor.
pub open spec fn tdiv(n: int, d: int) -> int {
    if n >= 0 {
        n / d
    } else {
        -((-n) / d)
    }
}

/// `v` clamped into `[lo, hi]`.
pub open spec fn clamped(v: int, lo: int, hi: int) -> int {
    if v < lo {
        lo
    } else if v > hi {
        hi
    } else {
        v
    }
}

/// `tdiv` never grows the magnitude of its dividend, and keeps its sign.
pub proof fn lemma_tdiv_bounds(n: int, d: int)
    requires
        1 <= d,
    ensures
        n >= 0 ==> 0 <= tdiv(n, d) <= n,
        n < 0 ==> n <= tdiv(n, d) <= 0,
{
    if n >= 0 {
        vstd::arithmetic::div_mod::lemma_div_pos_is_pos(n, d);
        vstd::arithmetic::div_mod::lemma_div_nonincreasing(n, d);
    } else {
        vstd::arithmetic::div_mod::lemma_div_pos_is_pos(-n, d);
        vstd::arithmetic::div_mod::lemma_div_nonincreasing(-n, d);
    }
}

/// For an `i64` dividend and a divisor of at least two, `tdiv` lands
/// strictly inside the `i64` range, within plus or minus `2^62`.
pub proof fn lemma_tdiv_i64_narrow(n: int, d: int)
    requires
        i64::MIN <= n <= i64::MAX,
        2 <= d,
    ensures
        -0x4000_0000_0000_0000 <= tdiv(n, d) <= 0x4000_0000_0000_0000,
{
    if n >= 0 {
        vstd::arithmetic::div_mod::lemma_div_pos_is_pos(n, d);
        vstd::arithmetic::div_mod::lemma_div_is_ordered(n, i64::MAX as int, d);
        vstd::arithmetic::div_mod::lemma_div_is_ordered_by_denominator(i64::MAX as int, 2, d);
    } else {
        vstd::arithmetic::div_mod::lemma_div_pos_is_pos(-n, d);
        vstd::arithmetic::div_mod::lemma_div_is_ordered(-n, -(i64::MIN as int), d);
        vstd::arithmetic::div_mod::lemma_div_is_ordered_by_denominator(-(i64::MIN as int), 2, d);
    }
}

impl Fx {
    /// The zero scalar.
    pub fn zero() -> (r: Fx)
        ensures
            r.raw == 0,
    {
        Fx { raw: 0 }
    }

    /// Build a scalar from a raw count of millionths.
    pub fn from_raw(raw: i64) -> (r: Fx)
        ensures
            r.raw == raw,
    {
        Fx { raw }
    }

    /// `-self`, saturating at the top of the range for the one
    /// unrepresentable case.
    pub fn neg_sat(self) -> (r: Fx)
        ensures
            r.raw == sat64(-(self.raw as int)),
    {
        if self.raw == i64::MIN {
            Fx { raw: i64::MAX }
        } else {
            Fx { raw: -self.raw }
        }
    }

    /// `self + other`, saturating.
    pub fn add_sat(self, other: Fx) -> (r: Fx)
        ensures
            r.raw == sat64(self.raw + other.raw),
    {
        match self.raw.checked_add(other.raw) {
            Some(v) => Fx { raw: v },
            None => {
                if other.raw > 0 {
                    Fx { raw: i64::MAX }
                } else {
                    Fx { raw: i64::MIN }
                }
            },
        }
    }

    /// `k * self`, saturating.
    pub fn mul_int_sat(self, k: i64) -> (r: Fx)
        ensures
            r.raw == sat64(k * self.raw),
    {
        match k.checked_mul(self.raw) {
            Some(v) => Fx { raw: v },
            None => {
                proof {
                    assert(k != 0 && self.raw != 0) by {
                        assert(k == 0 ==> k * self.raw == 0) by (nonlinear_arith);
                        assert(self.raw == 0 ==> k * self.raw == 0) by (nonlinear_arith);
                    }
                    assert((k > 0) == (self.raw > 0) ==> k * self.raw > 0) by (nonlinear_arith)
                        requires
                            k != 0 && self.raw != 0,
                    ;
                    assert((k > 0) != (self.raw > 0) ==> k * self.raw < 0) by (nonlinear_arith)
                        requires
                            k != 0 && self.raw != 0,
                    ;
                }
                if (k > 0) == (self.raw > 0) {
                    Fx { raw: i64::MAX }
                } else {
                    Fx { raw: i64::MIN }
                }
            },
        }
    }

    /// `self / d` truncated toward zero, for a positive divisor.
    pub fn div_pos(self, d: i64) -> (r: Fx)
        requires
            1 <= d,
        ensures
            r.raw == tdiv(self.raw as int, d as int),
            self.raw >= 0 ==> 0 <= r.raw <= self.raw,
            self.raw < 0 ==> self.raw <= r.raw <= 0,
            2 <= d ==> -0x4000_0000_0000_0000 <= r.raw <= 0x4000_0000_0000_0000,
    {
        proof {
            lemma_tdiv_bounds(self.raw as int, d as int);
            if d >= 2 {
                lemma_tdiv_i64_narrow(self.raw as int, d as int);
            }
        }
        match self.raw.checked_div(d) {
            Some(v) => Fx { raw: v },
            None => Fx { raw: 0 },
        }
    }

    /// `self` clamped into `[lo, hi]`.
    pub fn clamp(self, lo: Fx, hi: Fx) -> (r: Fx)
        requires
            lo.raw <= hi.raw,
        ensures
            r.raw == clamped(self.raw as int, lo.raw as int, hi.raw as int),
    {
        if self.raw < lo.raw {
            lo
        } else if self.raw > hi.raw {
            hi
        } else {
            self
        }
    }
}

} // verus!
