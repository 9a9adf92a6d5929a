//! Lengths of time, and instants on a monotonic clock.

use crate::number::{self, Number};
use vstd::arithmetic::div_mod::*;
use vstd::arithmetic::power2::*;
use vstd::prelude::*;

verus! {

/// One second, in nanoseconds.
pub const SECOND: u128 = 1_000_000_000;

/// The longest representable length of time, in nanoseconds.
pub const LONGEST: u128 = 18_446_744_073_709_551_615_999_999_999;

/// A length of time in nanoseconds.
#[derive(Clone, Copy, Debug, PartialEq, Eq, Structural)]
pub struct Span {
    pub nanos: u128,
}

/// An instant on the local monotonic clock, in nanoseconds since that clock's start.
#[derive(Clone, Copy, Debug, PartialEq, Eq, Structural)]
pub struct Moment {
    pub nanos: u64,
}

/// The shorter of two lengths.
pub open spec fn shorter(a: int, b: int) -> int {
    if a <= b {
        a
    } else {
        b
    }
}

/// `x` moved into `lo..=hi`.
pub open spec fn clamped(x: int, lo: int, hi: int) -> int {
    if x < lo {
        lo
    } else if x > hi {
        hi
    } else {
        x
    }
}

impl Span {
    /// `secs` seconds.
    pub fn from_secs(secs: u64) -> (r: Span)
        ensures
            r.nanos == secs * SECOND,
            r.nanos <= LONGEST,
    {
        Span { nanos: (secs as u128) * SECOND }
    }

    /// `millis` milliseconds.
    pub fn from_millis(millis: u64) -> (r: Span)
        ensures
            r.nanos == millis * 1_000_000,
            r.nanos <= LONGEST,
    {
        Span { nanos: (millis as u128) * 1_000_000 }
    }

    /// The whole seconds in this length.
    pub fn as_secs(&self) -> (r: u128)
        ensures
            r == self.nanos as int / SECOND as int,
    {
        self.nanos / SECOND
    }

    /// Whether `secs` is a length of time: neither negative nor too long.
    pub open spec fn expressible(secs: Number) -> bool {
        secs.finite() && 0 <= secs.units() < 0x1_0000_0000_0000_0000 * number::one()
    }

    /// A number of seconds to the nearest nanosecond, ties to even; `None` where the number is
    /// negative, too large, or no number.
    pub fn from_seconds(secs: &Number) -> (r: Option<Span>)
        ensures
            r is Some <==> Span::expressible(*secs),
            r is Some ==> r->0.nanos == number::round_half_even(
                (secs.units() * SECOND) as nat,
                number::one(),
            ),
    {
        proof {
            lemma_pow2_pos(1074);
        }
        if !secs.is_finite() || secs.is_below_int(0) {
            return None;
        }
        let (sig, exponent): (u64, u64) = secs.parts();
        let ghost e: nat = exponent as nat;
        if exponent < 1074 {
            let shift: u64 = 1074 - exponent;
            let n: u128 = number::round_shifted(sig, 1_000_000_000, shift);
            proof {
                let c = pow2(e);
                lemma_pow2_pos(e);
                lemma_pow2_pos(shift as nat);
                lemma_pow2_adds(shift as nat, e);
                number::lemma_round_scaled((sig * 1_000_000_000) as nat, pow2(shift as nat), c);
                assert((sig * 1_000_000_000) * c == (sig * c) * 1_000_000_000) by (nonlinear_arith);
                assert(c < pow2(1074)) by {
                    lemma_pow2_strictly_increases(e, 1074);
                }
                assert(sig * c < 0x1_0000_0000_0000_0000 * pow2(1074)) by (nonlinear_arith)
                    requires
                        0 <= sig < 0x1_0000_0000_0000_0000,
                        0 < c < pow2(1074),
                ;
            }
            return Some(Span { nanos: n });
        }
        let mut whole: u128 = sig as u128;
        let mut i: u64 = 1074;
        proof {
            assert(sig * pow2(e) == sig * pow2(1074) * pow2((e - 1074) as nat)) by {
                lemma_pow2_adds(1074, (e - 1074) as nat);
                let a = pow2(1074);
                let b = pow2((e - 1074) as nat);
                assert(sig * (a * b) == sig * a * b) by (nonlinear_arith);
            }
        }
        while i < exponent && whole < 0x1_0000_0000_0000_0000
            invariant
                1074 <= i <= exponent,
                e == exponent,
                whole < 0x2_0000_0000_0000_0000,
                sig * pow2(e) == whole * pow2(1074) * pow2((e - i) as nat),
            decreases exponent - i,
        {
            proof {
                lemma_pow2_unfold((e - i) as nat);
                let a = pow2(1074);
                let b = pow2((e - i - 1) as nat);
                assert(whole * a * (2 * b) == (2 * whole) * a * b) by (nonlinear_arith);
            }
            whole = whole * 2;
            i = i + 1;
        }
        let ghost a = pow2(1074);
        let ghost b = pow2((e - i) as nat);
        proof {
            lemma_pow2_pos((e - i) as nat);
            lemma2_to64();
            if whole >= 0x1_0000_0000_0000_0000 {
                assert(whole * a * b >= 0x1_0000_0000_0000_0000 * a) by (nonlinear_arith)
                    requires
                        whole >= 0x1_0000_0000_0000_0000,
                        a > 0,
                        b >= 1,
                ;
            } else {
                assert(b == 1);
                assert(whole * a * b == whole * a) by (nonlinear_arith)
                    requires
                        b == 1,
                ;
                assert(whole * a < 0x1_0000_0000_0000_0000 * a) by (nonlinear_arith)
                    requires
                        whole < 0x1_0000_0000_0000_0000,
                        a > 0,
                ;
                let n: int = whole * 1_000_000_000;
                assert(whole * a * 1_000_000_000 == n * a) by (nonlinear_arith)
                    requires
                        n == whole * 1_000_000_000,
                ;
                lemma_div_by_multiple(n, a as int);
                lemma_mod_multiples_basic(n, a as int);
            }
        }
        if whole >= 0x1_0000_0000_0000_0000 {
            return None;
        }
        Some(Span { nanos: whole * SECOND })
    }

    /// This length `k` times over, at most the longest representable one.
    pub fn saturating_mul(&self, k: u32) -> (r: Span)
        ensures
            r.nanos == shorter(self.nanos * k, LONGEST as int),
    {
        if k == 0 {
            return Span { nanos: 0 };
        }
        let limit: u128 = LONGEST / (k as u128);
        proof {
            let x = self.nanos as int;
            let d = k as int;
            lemma_fundamental_div_mod(LONGEST as int, d);
            assert(x <= limit ==> x * d <= LONGEST) by (nonlinear_arith)
                requires
                    LONGEST == d * limit + LONGEST as int % d,
                    0 <= LONGEST as int % d,
                    d > 0,
            ;
            assert(x > limit ==> x * d >= LONGEST) by (nonlinear_arith)
                requires
                    LONGEST == d * limit + LONGEST as int % d,
                    LONGEST as int % d < d,
                    d > 0,
            ;
        }
        if self.nanos <= limit {
            Span { nanos: self.nanos * (k as u128) }
        } else {
            Span { nanos: LONGEST }
        }
    }

    /// The sum of two lengths; no sum is longer than the clock can count.
    pub fn plus(&self, other: &Span) -> (r: Span)
        ensures
            r.nanos == shorter(self.nanos + other.nanos, u128::MAX as int),
    {
        if self.nanos <= u128::MAX - other.nanos {
            Span { nanos: self.nanos + other.nanos }
        } else {
            Span { nanos: u128::MAX }
        }
    }

    /// The shorter of two lengths.
    pub fn min(&self, other: &Span) -> (r: Span)
        ensures
            r.nanos == shorter(self.nanos as int, other.nanos as int),
    {
        if self.nanos <= other.nanos {
            *self
        } else {
            *other
        }
    }

    /// This length moved into `lo..=hi`.
    pub fn clamp(&self, lo: &Span, hi: &Span) -> (r: Span)
        requires
            lo.nanos <= hi.nanos,
        ensures
            r.nanos == clamped(self.nanos as int, lo.nanos as int, hi.nanos as int),
    {
        if self.nanos < lo.nanos {
            *lo
        } else if self.nanos > hi.nanos {
            *hi
        } else {
            *self
        }
    }
}

impl Moment {
    /// The time from `earlier` to this instant; zero where `earlier` is the later one.
    pub open spec fn since_spec(self, earlier: Moment) -> int {
        if self.nanos >= earlier.nanos {
            self.nanos - earlier.nanos
        } else {
            0
        }
    }

    /// The time from `earlier` to this instant; zero where `earlier` is the later one.
    pub fn since(&self, earlier: &Moment) -> (r: Span)
        ensures
            r.nanos == self.since_spec(*earlier),
    {
        if self.nanos >= earlier.nanos {
            Span { nanos: (self.nanos - earlier.nanos) as u128 }
        } else {
            Span { nanos: 0 }
        }
    }
}

/// The time from one instant to a later one leads from the one to the other; to an earlier one
/// it is nothing.
pub proof fn law_time_between_instants(earlier: Moment, later: Moment)
    requires
        earlier.nanos <= later.nanos,
    ensures
        earlier.nanos + later.since_spec(earlier) == later.nanos,
        earlier.since_spec(later) == 0,
{
}

/// The shorter of two lengths is one of them, and no longer than either.
pub proof fn law_shorter_is_the_least(a: int, b: int)
    ensures
        shorter(a, b) <= a && shorter(a, b) <= b,
        shorter(a, b) == a || shorter(a, b) == b,
{
}

/// Clamping leaves what lies within the bounds as it is, and moves the rest to the bound that
/// it lies beyond.
pub proof fn law_clamping_moves_to_the_nearest_bound(x: int, lo: int, hi: int)
    requires
        lo <= hi,
    ensures
        lo <= clamped(x, lo, hi) <= hi,
        lo <= x <= hi ==> clamped(x, lo, hi) == x,
        x < lo ==> clamped(x, lo, hi) == lo,
        x > hi ==> clamped(x, lo, hi) == hi,
{
}

/// A whole number of seconds is a thousand million times as many nanoseconds.
pub proof fn law_whole_seconds_are_exact(secs: Number, k: nat)
    requires
        secs.finite(),
        secs.units() == k * number::one(),
    ensures
        number::round_half_even((secs.units() * SECOND) as nat, number::one()) == k
            * 1_000_000_000,
        k < 0x1_0000_0000_0000_0000 <==> Span::expressible(secs),
{
    lemma_pow2_pos(1074);
    let o: int = number::one() as int;
    let n: int = k as int * 1_000_000_000;
    assert(k * o * 1_000_000_000 == n * o) by (nonlinear_arith)
        requires
            n == k * 1_000_000_000,
    ;
    lemma_div_by_multiple(n, o);
    lemma_mod_multiples_basic(n, o);
    assert(k * o >= 0) by (nonlinear_arith)
        requires
            o > 0,
            k >= 0,
    ;
    assert(k < 0x1_0000_0000_0000_0000 <==> k * o < 0x1_0000_0000_0000_0000 * o)
        by (nonlinear_arith)
        requires
            o > 0,
    ;
}

/// The longest length of time is as many seconds as 64 bits hold, and all but one nanosecond of
/// another.
pub proof fn law_longest_length()
    ensures
        LONGEST + 1 == (u64::MAX + 1) * 1_000_000_000,
        SECOND == 1_000_000_000,
{
}

} // verus!
