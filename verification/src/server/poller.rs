//! When to poll next: sooner as an approach draws near, later after failures.

use crate::number::{self, Number, HIDDEN_BIT};
use crate::server::domain::Cpa;
use crate::server::sources::SourceError;
use crate::span::{self, Span, LONGEST, SECOND};
use vstd::arithmetic::div_mod::*;
use vstd::arithmetic::power2::*;
use vstd::prelude::*;

verus! {

/// The shortest and the longest time between two polls.
#[derive(Clone, Copy, Debug, PartialEq, Eq, Structural)]
pub struct PollBounds {
    pub min: Span,
    pub max: Span,
}

impl PollBounds {
    /// The floor lies below the ceiling.
    pub open spec fn ordered(self) -> bool {
        self.min.nanos <= self.max.nanos
    }
}

/// The longest that a `Retry-After` is honored for, in nanoseconds.
pub const RETRY_AFTER_CEILING: u128 = 300_000_000_000;

/// Whether a quarter of a time to CPA is a length of time; one that is past counts as none.
pub open spec fn schedulable(time_to_cpa_s: Number) -> bool {
    time_to_cpa_s.nan() || time_to_cpa_s.below_int(0) || (time_to_cpa_s.finite()
        && time_to_cpa_s.units() < 0x4_0000_0000_0000_0000 * number::one())
}

/// A quarter of the time to CPA, in nanoseconds.
pub open spec fn pace_target(time_to_cpa_s: Number) -> int {
    if time_to_cpa_s.nan() || time_to_cpa_s.below_int(0) {
        0
    } else {
        number::round_half_even(
            (time_to_cpa_s.units() * SECOND) as nat,
            (4 * number::one()) as nat,
        ) as int
    }
}

/// The time to wait, in nanoseconds: the longest while nothing approaches, else a quarter of
/// the time to the soonest CPA, within the bounds.
pub open spec fn cadence(pacing: Option<Cpa>, bounds: PollBounds) -> int {
    match pacing {
        Some(cpa) => span::clamped(
            pace_target(cpa.time_to_cpa_s),
            bounds.min.nanos as int,
            bounds.max.nanos as int,
        ),
        None => bounds.max.nanos as int,
    }
}

fn quarter(t: &Number) -> (r: Number)
    requires
        t.finite(),
        !t.negative(),
    ensures
        r.finite(),
        !r.negative(),
        t.bits >= 3 * HIDDEN_BIT ==> t.units() == 4 * r.units(),
        t.bits < 3 * HIDDEN_BIT ==> r.units() == 0,
{
    if t.bits < 3 * HIDDEN_BIT {
        return Number { bits: 0 };
    }
    let r = Number { bits: t.bits - 2 * HIDDEN_BIT };
    proof {
        let h: int = HIDDEN_BIT as int;
        let e = t.bits as int / h;
        let f = t.bits as int % h;
        assert(r.bits as int / h == e - 2 && r.bits as int % h == f);
        lemma_pow2_unfold((e - 1) as nat);
        lemma_pow2_unfold((e - 2) as nat);
        let p = pow2((e - 3) as nat);
        assert((h + f) * (2 * (2 * p)) == 4 * ((h + f) * p)) by (nonlinear_arith);
    }
    r
}

fn pace(t: &Number) -> (r: Span)
    requires
        schedulable(*t),
    ensures
        r.nanos == pace_target(*t),
{
    if t.is_nan() || t.is_below_int(0) {
        return Span { nanos: 0 };
    }
    let ghost o: int = number::one() as int;
    proof {
        lemma_pow2_pos(1074);
    }
    if t.is_negative() {
        proof {
            let zero = Number { bits: 0 };
            number::lemma_rank_orders_values(*t, zero);
            assert(t.units() == 0);
            lemma_small_div(0, 4 * o);
        }
        return Span { nanos: 0 };
    }
    let q = quarter(t);
    proof {
        if t.bits >= 3 * HIDDEN_BIT {
            let u: int = q.units();
            assert((u * SECOND) * 4 == t.units() * SECOND) by (nonlinear_arith)
                requires
                    t.units() == 4 * u,
            ;
            number::lemma_round_scaled((u * SECOND) as nat, number::one(), 4);
        } else {
            let m: int = t.bits as int;
            let h: int = HIDDEN_BIT as int;
            let e = m / h;
            let f = m % h;
            lemma2_to64();
            assert(pow2(0) == 1 && pow2(1) == 2);
            assert(0 <= t.units() < 4 * h) by {
                if e == 0 {
                } else if e == 1 {
                    assert((h + f) * pow2(0) == h + f) by (nonlinear_arith)
                        requires
                            pow2(0) == 1,
                    ;
                } else {
                    assert(e == 2);
                    assert((h + f) * pow2(1) == 2 * (h + f)) by (nonlinear_arith)
                        requires
                            pow2(1) == 2,
                    ;
                }
            }
            assert(o > 0x10_0000_0000_0000_0000_0000_0000) by {
                lemma2_to64_rest();
                lemma_pow2_adds(50, 50);
                lemma_pow2_strictly_increases(100, 1074);
            }
            let a: int = t.units() * SECOND;
            assert(0 <= a < 4 * h * SECOND) by (nonlinear_arith)
                requires
                    a == t.units() * SECOND,
                    0 <= t.units() < 4 * h,
            ;
            lemma_small_div(a, 4 * o);
            lemma_small_div(0, o);
        }
    }
    match Span::from_seconds(&q) {
        Some(s) => s,
        None => Span { nanos: 0 },
    }
}

proof fn lemma_small_div(a: int, b: int)
    requires
        0 <= a,
        2 * a < b,
    ensures
        number::round_half_even(a as nat, b as nat) == 0,
{
    lemma_fundamental_div_mod_converse(a, b, 0, a);
}

/// How long to wait before the next poll.
pub fn schedule(pacing: Option<Cpa>, bounds: PollBounds) -> (r: Span)
    requires
        pacing is Some ==> bounds.ordered() && schedulable(pacing->0.time_to_cpa_s),
    ensures
        r.nanos == cadence(pacing, bounds),
{
    match pacing {
        Some(cpa) => clamp(pace(&cpa.time_to_cpa_s), bounds),
        None => bounds.max,
    }
}

/// A length of time moved into the bounds.
pub fn clamp(d: Span, bounds: PollBounds) -> (r: Span)
    requires
        bounds.ordered(),
    ensures
        r.nanos == span::clamped(d.nanos as int, bounds.min.nanos as int, bounds.max.nanos as int),
{
    d.clamp(&bounds.min, &bounds.max)
}

/// How many polls in a row have failed.
#[derive(Clone, Copy, Debug, PartialEq, Eq, Structural)]
pub struct Backoff {
    pub failures: u32,
}

impl Default for Backoff {
    fn default() -> (r: Backoff)
        ensures
            r.failures == 0,
    {
        Backoff { failures: 0 }
    }
}

/// Twice as much for each failure after the first, as far as the factor's type holds.
pub open spec fn backoff_factor(failures: int) -> int {
    if failures > 32 {
        u32::MAX as int
    } else {
        pow2((failures - 1) as nat) as int
    }
}

/// The wait after a failure that is the `failures`-th in a row, in nanoseconds: what the source
/// asks for, up to the ceiling, or else the floor doubled with each failure, within the bounds.
pub open spec fn penalty(failures: int, error: SourceError, bounds: PollBounds) -> int {
    match error {
        SourceError::RateLimited { retry_after: Some(d) } => span::clamped(
            d.nanos as int,
            span::shorter(bounds.min.nanos as int, RETRY_AFTER_CEILING as int),
            RETRY_AFTER_CEILING as int,
        ),
        _ => span::clamped(
            span::shorter(bounds.min.nanos * backoff_factor(failures), LONGEST as int),
            bounds.min.nanos as int,
            bounds.max.nanos as int,
        ),
    }
}

/// Whether the source names the delay itself.
pub open spec fn names_delay(error: SourceError) -> bool {
    error is RateLimited && error->retry_after is Some
}

impl Backoff {
    /// A poll succeeded.
    pub fn reset(&mut self)
        ensures
            final(self).failures == 0,
    {
        self.failures = 0;
    }

    /// A poll failed: how long to wait before the next.
    pub fn next_delay(&mut self, error: &SourceError, bounds: PollBounds) -> (r: Span)
        requires
            !names_delay(*error) ==> bounds.ordered(),
        ensures
            final(self).failures == span::shorter(old(self).failures + 1, u32::MAX as int),
            r.nanos == penalty(final(self).failures as int, *error, bounds),
    {
        if self.failures < u32::MAX {
            self.failures = self.failures + 1;
        }
        match error {
            SourceError::RateLimited { retry_after: Some(d) } => {
                let ceiling = Span { nanos: RETRY_AFTER_CEILING };
                let lo = bounds.min.min(&ceiling);
                return d.clamp(&lo, &ceiling);
            },
            _ => {},
        }
        let factor: u32 = doublings(self.failures);
        clamp(bounds.min.saturating_mul(factor), bounds)
    }
}

fn doublings(failures: u32) -> (r: u32)
    requires
        failures > 0,
    ensures
        r == backoff_factor(failures as int),
{
    if failures > 32 {
        return u32::MAX;
    }
    let mut factor: u32 = 1;
    let mut i: u32 = 1;
    proof {
        lemma2_to64();
    }
    while i < failures
        invariant
            1 <= i <= failures <= 32,
            factor == pow2((i - 1) as nat),
        decreases failures - i,
    {
        proof {
            lemma_pow2_unfold(i as nat);
            lemma2_to64();
            if i < 31 {
                lemma_pow2_strictly_increases(i as nat, 31);
            }
        }
        factor = factor * 2;
        i = i + 1;
    }
    factor
}

/// How a poll went: the CPA of the flight that now paces, or why there is no snapshot.
pub enum Outcome<'a> {
    Fresh(Option<Cpa>),
    Failed(&'a SourceError),
}

/// The decision after each poll: success ends the backoff and paces by the soonest approach,
/// failure backs off.
pub fn settle(backoff: &mut Backoff, outcome: Outcome<'_>, bounds: PollBounds) -> (r: Span)
    requires
        bounds.ordered(),
        outcome is Fresh && outcome->Fresh_0 is Some ==> schedulable(
            outcome->Fresh_0->0.time_to_cpa_s,
        ),
    ensures
        outcome is Fresh ==> final(backoff).failures == 0 && r.nanos == cadence(
            outcome->Fresh_0,
            bounds,
        ),
        outcome is Failed ==> final(backoff).failures == span::shorter(
            old(backoff).failures + 1,
            u32::MAX as int,
        ) && r.nanos == penalty(final(backoff).failures as int, *outcome->Failed_0, bounds),
{
    match outcome {
        Outcome::Fresh(pacing) => {
            backoff.reset();
            schedule(pacing, bounds)
        },
        Outcome::Failed(error) => backoff.next_delay(error, bounds),
    }
}

/// The window of a source: its own floor, and the configured quiet cadence unless that is
/// shorter.
pub fn poll_bounds(max_poll: Span, min_interval: Span) -> (r: PollBounds)
    ensures
        r.min == min_interval,
        r.max == (if max_poll.nanos >= min_interval.nanos {
            max_poll
        } else {
            min_interval
        }),
        r.ordered(),
{
    PollBounds {
        min: min_interval,
        max: if max_poll.nanos >= min_interval.nanos {
            max_poll
        } else {
            min_interval
        },
    }
}

/// The cadence never leaves the bounds.
pub proof fn law_cadence_stays_within_bounds(pacing: Option<Cpa>, bounds: PollBounds)
    requires
        bounds.ordered(),
    ensures
        bounds.min.nanos <= cadence(pacing, bounds) <= bounds.max.nanos,
{
}

/// The sooner the approach, the sooner the next poll; with none the wait is the longest.
pub proof fn law_nearer_approach_polls_no_later(a: Cpa, b: Cpa, bounds: PollBounds)
    requires
        bounds.ordered(),
        a.time_to_cpa_s.finite(),
        b.time_to_cpa_s.finite(),
        a.time_to_cpa_s.at_most(b.time_to_cpa_s),
    ensures
        cadence(Some(a), bounds) <= cadence(Some(b), bounds) <= cadence(None, bounds),
{
    let x = a.time_to_cpa_s;
    let y = b.time_to_cpa_s;
    let o: int = number::one() as int;
    lemma_pow2_pos(1074);
    number::lemma_rank_orders_values(x, y);
    assert(0 * o == 0) by (nonlinear_arith);
    if x.below_int(0) {
        assert(pace_target(y) >= 0);
    } else {
        assert(0 <= x.units() <= y.units());
        assert(0 <= x.units() * SECOND <= y.units() * SECOND) by (nonlinear_arith)
            requires
                0 <= x.units() <= y.units(),
        ;
        number::lemma_round_monotone(
            (x.units() * SECOND) as nat,
            (y.units() * SECOND) as nat,
            (4 * number::one()) as nat,
        );
    }
}

/// A failure is never waited out for less than the floor nor for more than the ceiling; a delay
/// that the source names is honored up to its own ceiling.
pub proof fn law_penalty_stays_within_bounds(failures: int, error: SourceError, bounds: PollBounds)
    requires
        failures >= 1,
        bounds.ordered(),
    ensures
        !names_delay(error) ==> bounds.min.nanos <= penalty(failures, error, bounds)
            <= bounds.max.nanos,
        names_delay(error) ==> span::shorter(bounds.min.nanos as int, RETRY_AFTER_CEILING as int)
            <= penalty(failures, error, bounds) <= RETRY_AFTER_CEILING,
{
}

/// Each further failure in a row waits at least as long as the one before.
pub proof fn law_backoff_does_not_shrink(failures: int, error: SourceError, bounds: PollBounds)
    requires
        failures >= 1,
        bounds.ordered(),
    ensures
        penalty(failures, error, bounds) <= penalty(failures + 1, error, bounds),
{
    if !names_delay(error) {
        let m: int = bounds.min.nanos as int;
        lemma2_to64();
        assert(backoff_factor(failures) <= backoff_factor(failures + 1)) by {
            if failures < 32 {
                lemma_pow2_strictly_increases((failures - 1) as nat, failures as nat);
            } else if failures == 32 {
                assert(pow2(31) <= u32::MAX);
            }
        }
        assert(m * backoff_factor(failures) <= m * backoff_factor(failures + 1))
            by (nonlinear_arith)
            requires
                m >= 0,
                backoff_factor(failures) <= backoff_factor(failures + 1),
        ;
    }
}

/// The first failure after a success waits for the floor.
pub proof fn law_first_failure_waits_for_the_floor(error: SourceError, bounds: PollBounds)
    requires
        !names_delay(error),
        bounds.ordered(),
        bounds.min.nanos <= LONGEST,
    ensures
        penalty(1, error, bounds) == bounds.min.nanos,
{
    lemma2_to64();
    assert(bounds.min.nanos * backoff_factor(1) == bounds.min.nanos) by (nonlinear_arith)
        requires
            backoff_factor(1) == 1,
    ;
}

/// After an error that names no delay, each further failure in a row doubles the wait, up to
/// the ceiling, as far as the doublings are counted.
pub proof fn law_each_failure_doubles_the_wait(
    failures: int,
    error: SourceError,
    bounds: PollBounds,
)
    requires
        1 <= failures < 32,
        !(error is RateLimited) || error->retry_after is None,
        bounds.ordered(),
        bounds.max.nanos <= LONGEST,
    ensures
        penalty(failures + 1, error, bounds) == (if 2 * penalty(failures, error, bounds)
            <= bounds.max.nanos {
            2 * penalty(failures, error, bounds)
        } else {
            bounds.max.nanos as int
        }),
        penalty(1, error, bounds) == bounds.min.nanos,
{
    let m: int = bounds.min.nanos as int;
    let p: int = pow2((failures - 1) as nat) as int;
    lemma_pow2_unfold(failures as nat);
    lemma_pow2_pos((failures - 1) as nat);
    lemma2_to64();
    assert(m * (2 * p) == 2 * (m * p)) by (nonlinear_arith);
    assert(m * 1 == m) by (nonlinear_arith);
    assert(m * p >= m) by (nonlinear_arith)
        requires
            p >= 1,
            m >= 0,
    ;
}

/// Beyond the doublings that are counted the wait stays where they end: at the ceiling, wherever
/// that is within reach of them.
pub proof fn law_many_failures_wait_for_the_ceiling(
    failures: int,
    error: SourceError,
    bounds: PollBounds,
)
    requires
        failures > 32,
        !(error is RateLimited) || error->retry_after is None,
        bounds.ordered(),
        bounds.max.nanos <= LONGEST,
        bounds.max.nanos <= bounds.min.nanos * 0xffff_ffff,
    ensures
        penalty(failures, error, bounds) == bounds.max.nanos,
{
}

/// What kind of error names no delay does not matter to the wait.
pub proof fn law_errors_without_a_delay_wait_alike(
    failures: int,
    a: SourceError,
    b: SourceError,
    bounds: PollBounds,
)
    requires
        a is RateLimited ==> a->retry_after is None,
        b is RateLimited ==> b->retry_after is None,
    ensures
        penalty(failures, a, bounds) == penalty(failures, b, bounds),
{
}

/// A delay that the source names is waited out to the nanosecond where it is no shorter than
/// the floor and no longer than five minutes, however many polls have failed; a shorter one
/// counts as the floor, a longer one as five minutes.
pub proof fn law_named_delay_is_honored(
    failures: int,
    retry_after: Span,
    bounds: PollBounds,
)
    requires
        bounds.min.nanos <= 300_000_000_000,
    ensures
        ({
            let wait = penalty(
                failures,
                SourceError::RateLimited { retry_after: Some(retry_after) },
                bounds,
            );
            &&& bounds.min.nanos <= retry_after.nanos <= 300_000_000_000 ==> wait
                == retry_after.nanos
            &&& retry_after.nanos < bounds.min.nanos ==> wait == bounds.min.nanos
            &&& retry_after.nanos > 300_000_000_000 ==> wait == 300_000_000_000
        }),
{
}

/// Within the bounds the wait is a quarter of the time to the closest pass, to the nearest
/// nanosecond: four waits lead up to the pass.
pub proof fn law_four_waits_lead_up_to_the_pass(cpa: Cpa, bounds: PollBounds)
    requires
        bounds.ordered(),
        cpa.time_to_cpa_s.finite(),
        cpa.time_to_cpa_s.units() >= 0,
        bounds.min.nanos < cadence(Some(cpa), bounds) < bounds.max.nanos,
    ensures
        number::apart(
            4 * cadence(Some(cpa), bounds) * number::one(),
            cpa.time_to_cpa_s.units() * 1_000_000_000,
        ) <= 2 * number::one(),
{
    let u: int = cpa.time_to_cpa_s.units();
    let o: int = number::one() as int;
    lemma_pow2_pos(1074);
    assert(0 * o == 0) by (nonlinear_arith);
    assert(u * SECOND >= 0) by (nonlinear_arith)
        requires
            u >= 0,
    ;
    number::law_rounding_is_to_the_nearest((u * SECOND) as nat, (4 * number::one()) as nat);
    let k = cadence(Some(cpa), bounds);
    assert(k * (4 * o) == 4 * k * o) by (nonlinear_arith);
}

/// A closest pass in four times a whole number of seconds is waited for that many seconds,
/// where the bounds allow it; beyond them the wait is the bound.
pub proof fn law_whole_quarters_are_waited_out(cpa: Cpa, bounds: PollBounds, k: nat)
    requires
        bounds.ordered(),
        cpa.time_to_cpa_s.finite(),
        cpa.time_to_cpa_s.units() == 4 * k * number::one(),
    ensures
        cadence(Some(cpa), bounds) == (if k * 1_000_000_000 < bounds.min.nanos {
            bounds.min.nanos as int
        } else if k * 1_000_000_000 > bounds.max.nanos {
            bounds.max.nanos as int
        } else {
            k as int * 1_000_000_000
        }),
{
    let o: int = number::one() as int;
    lemma_pow2_pos(1074);
    let n: int = k as int * 1_000_000_000;
    assert(0 * o == 0) by (nonlinear_arith);
    assert(4 * k * o >= 0) by (nonlinear_arith)
        requires
            o > 0,
            k >= 0,
    ;
    assert(4 * k * o * 1_000_000_000 == n * (4 * o)) by (nonlinear_arith)
        requires
            n == k * 1_000_000_000,
    ;
    lemma_div_by_multiple(n, 4 * o);
    lemma_mod_multiples_basic(n, 4 * o);
}

/// A pass that is behind is looked at again as soon as may be, and with none ahead the wait is
/// the longest.
pub proof fn law_cadence_at_its_ends(cpa: Cpa, bounds: PollBounds)
    requires
        bounds.ordered(),
        cpa.time_to_cpa_s.finite(),
        cpa.time_to_cpa_s.units() < 0,
    ensures
        cadence(Some(cpa), bounds) == bounds.min.nanos,
        cadence(None, bounds) == bounds.max.nanos,
{
    assert(0 * number::one() == 0) by (nonlinear_arith);
}

/// Any time to a closest pass can be paced by, short of four times the seconds that 64 bits
/// hold.
pub proof fn law_any_sensible_time_can_be_paced_by(t: Number)
    ensures
        t.nan() ==> schedulable(t),
        t.finite() && t.units() < 0x4_0000_0000_0000_0000 * number::one() ==> schedulable(t),
{
}

} // verus!
