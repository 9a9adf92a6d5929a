//! Double-precision numbers, carried as their IEEE-754 bit patterns.
//!
//! The library never does floating-point arithmetic: it classifies, compares and prints
//! numbers that were measured or computed elsewhere. All of that is decided exactly on the
//! bit pattern, and stated over the number that the pattern stands for.

use vstd::arithmetic::div_mod::*;
use vstd::arithmetic::mul::*;
use vstd::arithmetic::power2::*;
use vstd::prelude::*;

verus! {

/// The bit that holds the sign.
pub const SIGN_BIT: u64 = 0x8000_0000_0000_0000;

/// The pattern of positive infinity: every finite magnitude lies below it, every NaN above.
pub const INFINITE: u64 = 0x7ff0_0000_0000_0000;

/// The weight of one step of the exponent field, and the number of fraction values.
pub const HIDDEN_BIT: u64 = 0x0010_0000_0000_0000;

/// A number of the `binary64` format, held as its bit pattern. `==` compares patterns.
#[derive(Clone, Copy, Debug, PartialEq, Eq, Structural)]
pub struct Number {
    pub bits: u64,
}

/// The number 1, in units of the smallest positive `binary64` number.
pub open spec fn one() -> nat {
    pow2(1074)
}

/// What a finite magnitude (a pattern without its sign) stands for, in units of the smallest
/// positive number.
pub open spec fn magnitude_units(magnitude: int) -> nat {
    let exponent = magnitude / (HIDDEN_BIT as int);
    let fraction = magnitude % (HIDDEN_BIT as int);
    if exponent == 0 {
        fraction as nat
    } else {
        ((HIDDEN_BIT + fraction) * pow2((exponent - 1) as nat)) as nat
    }
}

/// `a / b` rounded to the nearest whole number, a tie going to the even one.
pub open spec fn round_half_even(a: nat, b: nat) -> nat {
    let q = a / b;
    let r = a % b;
    if 2 * r < b {
        q
    } else if 2 * r > b {
        q + 1
    } else if q % 2 == 0 {
        q
    } else {
        q + 1
    }
}

impl Number {
    /// Whether the sign bit is set.
    pub open spec fn negative(self) -> bool {
        self.bits >= SIGN_BIT
    }

    /// The pattern without its sign bit.
    pub open spec fn magnitude(self) -> int {
        if self.negative() {
            self.bits - SIGN_BIT
        } else {
            self.bits as int
        }
    }

    /// Neither a number nor an infinity.
    pub open spec fn nan(self) -> bool {
        self.magnitude() > INFINITE
    }

    /// A number, and no infinity.
    pub open spec fn finite(self) -> bool {
        self.magnitude() < INFINITE
    }

    /// The value of a finite number, in units of the smallest positive number.
    pub open spec fn units(self) -> int {
        if self.negative() {
            -(magnitude_units(self.magnitude()) as int)
        } else {
            magnitude_units(self.magnitude()) as int
        }
    }

    /// Where a number stands among all numbers and the two infinities; both zeros stand at 0.
    pub open spec fn rank(self) -> int {
        if self.negative() {
            -self.magnitude()
        } else {
            self.magnitude()
        }
    }

    /// Where a pattern stands in the total order on patterns: numbers by value, the negative
    /// zero just below the positive one, NaNs beyond the infinity of their sign.
    pub open spec fn total_rank(self) -> int {
        if self.negative() {
            -self.magnitude() - 1
        } else {
            self.magnitude()
        }
    }

    /// `self < other`, which is false where either side is a NaN.
    pub open spec fn below(self, other: Number) -> bool {
        !self.nan() && !other.nan() && self.rank() < other.rank()
    }

    /// `self <= other`, which is false where either side is a NaN.
    pub open spec fn at_most(self, other: Number) -> bool {
        !self.nan() && !other.nan() && self.rank() <= other.rank()
    }

    /// `self < n`, for a whole number.
    pub open spec fn below_int(self, n: int) -> bool {
        !self.nan() && (if self.finite() {
            self.units() < n * one()
        } else {
            self.negative()
        })
    }

    /// `self > n`, for a whole number.
    pub open spec fn above_int(self, n: int) -> bool {
        !self.nan() && (if self.finite() {
            self.units() > n * one()
        } else {
            !self.negative()
        })
    }

    /// `self < n / 2`, for a whole number.
    pub open spec fn below_halves(self, n: int) -> bool {
        !self.nan() && (if self.finite() {
            2 * self.units() < n * one()
        } else {
            self.negative()
        })
    }

    /// `self >= n`, for a whole number.
    pub open spec fn at_least_int(self, n: int) -> bool {
        !self.nan() && !self.below_int(n)
    }

    /// `self <= n`, for a whole number.
    pub open spec fn at_most_int(self, n: int) -> bool {
        !self.nan() && !self.above_int(n)
    }
}

/// Magnitudes are ordered as the numbers they stand for.
pub proof fn lemma_magnitude_units_ordered(a: int, b: int)
    requires
        0 <= a < b < INFINITE,
    ensures
        magnitude_units(a) < magnitude_units(b),
{
    let h: int = HIDDEN_BIT as int;
    let ea = a / h;
    let fa = a % h;
    let eb = b / h;
    let fb = b % h;
    assert(ea <= eb);
    assert(h == pow2(52)) by {
        lemma2_to64_rest();
    }
    if ea == eb {
        assert(fa < fb);
        if ea > 0 {
            let p = pow2((ea - 1) as nat);
            lemma_pow2_pos((ea - 1) as nat);
            lemma_mul_strict_inequality(h + fa, h + fb, p as int);
        }
    } else {
        let pb = pow2((eb - 1) as nat);
        lemma_pow2_pos((eb - 1) as nat);
        lemma_mul_inequality(h, h + fb, pb as int);
        if ea == 0 {
            lemma_mul_inequality(1, pb as int, h);
            lemma_mul_is_commutative(h, pb as int);
            assert(magnitude_units(b) >= h);
        } else {
            let pa = pow2((ea - 1) as nat);
            lemma_pow2_pos((ea - 1) as nat);
            assert(pow2(ea as nat) == 2 * pa) by {
                lemma_pow2_unfold(ea as nat);
            }
            assert(pow2(ea as nat) <= pb) by {
                if ea < eb - 1 {
                    lemma_pow2_strictly_increases(ea as nat, (eb - 1) as nat);
                }
            }
            assert((h + fa) * pa < (2 * h) * pa) by {
                lemma_mul_strict_inequality(h + fa, 2 * h, pa as int);
            }
            assert((2 * h) * pa == h * (2 * pa)) by (nonlinear_arith);
            assert(h * (2 * pa) <= h * pb) by {
                lemma_mul_inequality(2 * pa as int, pb as int, h);
                lemma_mul_is_commutative(h, 2 * pa as int);
                lemma_mul_is_commutative(h, pb as int);
            }
        }
    }
}

/// On finite numbers, the order of ranks is the order of values.
pub proof fn lemma_rank_orders_values(a: Number, b: Number)
    requires
        a.finite(),
        b.finite(),
    ensures
        a.rank() < b.rank() <==> a.units() < b.units(),
        a.rank() == b.rank() <==> a.units() == b.units(),
{
    let ma = a.magnitude();
    let mb = b.magnitude();
    if ma < mb {
        lemma_magnitude_units_ordered(ma, mb);
    } else if mb < ma {
        lemma_magnitude_units_ordered(mb, ma);
    }
    if ma > 0 {
        lemma_magnitude_units_ordered(0, ma);
    }
    if mb > 0 {
        lemma_magnitude_units_ordered(0, mb);
    }
    assert(magnitude_units(0) == 0);
}

/// A whole number is exactly representable: its magnitude's pattern stands for it.
fn whole_magnitude(n: u32) -> (magnitude: u64)
    ensures
        magnitude < INFINITE,
        magnitude_units(magnitude as int) == n * one(),
        n > 0 ==> magnitude >= 1023 * HIDDEN_BIT,
{
    if n == 0 {
        return 0;
    }
    let mut k: u64 = 0;
    let mut p: u64 = 1;
    let mut q: u64 = HIDDEN_BIT;
    proof {
        lemma2_to64();
        lemma2_to64_rest();
    }
    while p <= (n as u64) / 2
        invariant
            k <= 31,
            1 <= p <= n <= u32::MAX,
            p == pow2(k as nat),
            q == pow2((52 - k) as nat),
            p * q == HIDDEN_BIT,
        decreases n - p,
    {
        proof {
            lemma_pow2_unfold((k + 1) as nat);
            lemma_pow2_unfold((52 - k) as nat);
            lemma_pow2_pos((51 - k) as nat);
            if k == 31 {
                lemma2_to64();
            }
            let half = pow2((51 - k) as nat);
            assert((2 * p) * half == p * (2 * half)) by (nonlinear_arith);
        }
        p = p * 2;
        q = q / 2;
        k = k + 1;
    }
    proof {
        let h: int = HIDDEN_BIT as int;
        let rest = (n - p) * q;
        assert(0 <= rest < p * q) by (nonlinear_arith)
            requires
                rest == (n - p) * q,
                p <= n < 2 * p,
                q >= 1,
        ;
        let magnitude = (1023 + k) * h + rest;
        assert(magnitude / h == 1023 + k && magnitude % h == rest) by (nonlinear_arith)
            requires
                magnitude == (1023 + k) * h + rest,
                0 <= rest < h,
        ;
        let step = pow2((1022 + k) as nat);
        assert(h + rest == n * q) by (nonlinear_arith)
            requires
                h == p * q,
                rest == (n - p) * q,
        ;
        lemma_pow2_adds((52 - k) as nat, (1022 + k) as nat);
        assert((n * q) * step == n * (q * step)) by (nonlinear_arith);
    }
    (1023 + k) * HIDDEN_BIT + ((n as u64) - p) * q
}

/// The pattern of a whole number.
pub fn whole(n: i32) -> (r: Number)
    ensures
        r.finite(),
        r.units() == n * one(),
        n > 0 ==> 1023 * HIDDEN_BIT <= r.bits < INFINITE,
{
    proof {
        assert((-n) * one() == -(n * one())) by (nonlinear_arith);
    }
    if n < 0 {
        let m: u32 = ((-(n as i64)) as u64) as u32;
        Number { bits: SIGN_BIT + whole_magnitude(m) }
    } else {
        Number { bits: whole_magnitude(n as u32) }
    }
}

impl Number {
    fn sized(&self) -> (r: u64)
        ensures
            r == self.magnitude(),
    {
        if self.bits >= SIGN_BIT {
            self.bits - SIGN_BIT
        } else {
            self.bits
        }
    }

    /// The significand and the power of two of a finite number's magnitude.
    pub fn parts(&self) -> (r: (u64, u64))
        requires
            self.finite(),
        ensures
            r.0 < 2 * HIDDEN_BIT,
            r.1 <= 2045,
            magnitude_units(self.magnitude()) == r.0 * pow2(r.1 as nat),
    {
        let m: u64 = self.sized();
        let exponent: u64 = m / HIDDEN_BIT;
        let fraction: u64 = m % HIDDEN_BIT;
        if exponent == 0 {
            proof {
                lemma2_to64();
            }
            (fraction, 0)
        } else {
            (HIDDEN_BIT + fraction, exponent - 1)
        }
    }

    /// Whether this is a NaN.
    pub fn is_nan(&self) -> (r: bool)
        ensures
            r == self.nan(),
    {
        self.sized() > INFINITE
    }

    /// Whether this is a number and no infinity.
    pub fn is_finite(&self) -> (r: bool)
        ensures
            r == self.finite(),
    {
        self.sized() < INFINITE
    }

    /// Whether the sign bit is set.
    pub fn is_negative(&self) -> (r: bool)
        ensures
            r == self.negative(),
    {
        self.bits >= SIGN_BIT
    }

    /// `self < other`.
    pub fn is_below(&self, other: &Number) -> (r: bool)
        ensures
            r == self.below(*other),
    {
        if self.is_nan() || other.is_nan() {
            return false;
        }
        if self.is_negative() {
            if other.is_negative() {
                other.sized() < self.sized()
            } else {
                self.sized() > 0 || other.sized() > 0
            }
        } else {
            !other.is_negative() && self.sized() < other.sized()
        }
    }

    /// `self <= other`.
    pub fn is_at_most(&self, other: &Number) -> (r: bool)
        ensures
            r == self.at_most(*other),
    {
        !self.is_nan() && !other.is_nan() && !other.is_below(self)
    }

    /// Where the pattern stands in the total order.
    pub fn key(&self) -> (r: i64)
        ensures
            r == self.total_rank(),
    {
        if self.is_negative() {
            -(self.sized() as i64) - 1
        } else {
            self.sized() as i64
        }
    }

    /// `self < n`.
    pub fn is_below_int(&self, n: i32) -> (r: bool)
        ensures
            r == self.below_int(n as int),
    {
        let bound = whole(n);
        proof {
            if self.finite() {
                lemma_rank_orders_values(*self, bound);
            }
        }
        self.is_below(&bound)
    }

    /// `self < n / 2`.
    pub fn is_below_halves(&self, n: i32) -> (r: bool)
        requires
            n > 0,
        ensures
            r == self.below_halves(n as int),
    {
        let bound = whole(n);
        let half = Number { bits: bound.bits - HIDDEN_BIT };
        proof {
            let h: int = HIDDEN_BIT as int;
            let e = bound.bits as int / h;
            let f = bound.bits as int % h;
            assert(half.bits as int / h == e - 1 && half.bits as int % h == f);
            lemma_pow2_unfold((e - 1) as nat);
            let p = pow2((e - 2) as nat);
            assert((h + f) * (2 * p) == 2 * ((h + f) * p)) by (nonlinear_arith);
            assert(bound.units() == 2 * half.units());
            if self.finite() {
                lemma_rank_orders_values(*self, half);
            }
        }
        self.is_below(&half)
    }

    /// `self > n`.
    pub fn is_above_int(&self, n: i32) -> (r: bool)
        ensures
            r == self.above_int(n as int),
    {
        let bound = whole(n);
        proof {
            if self.finite() {
                lemma_rank_orders_values(bound, *self);
            }
        }
        bound.is_below(self)
    }

    /// `self >= n`.
    pub fn is_at_least_int(&self, n: i32) -> (r: bool)
        ensures
            r == self.at_least_int(n as int),
    {
        !self.is_nan() && !self.is_below_int(n)
    }

    /// `self <= n`.
    pub fn is_at_most_int(&self, n: i32) -> (r: bool)
        ensures
            r == self.at_most_int(n as int),
    {
        !self.is_nan() && !self.is_above_int(n)
    }
}

/// Scaling a fraction does not change what it rounds to.
pub proof fn lemma_round_scaled(a: nat, b: nat, c: nat)
    requires
        b > 0,
        c > 0,
    ensures
        round_half_even(a * c, b * c) == round_half_even(a, b),
{
    let q = a / b;
    let r = a % b;
    lemma_fundamental_div_mod(a as int, b as int);
    assert(a * c == q * (b * c) + r * c && 0 <= r * c < b * c && b * c > 0) by (nonlinear_arith)
        requires
            a == b * q + r,
            0 <= r < b,
            c > 0,
    ;
    lemma_fundamental_div_mod_converse((a * c) as int, (b * c) as int, q as int, (r * c) as int);
    assert(2 * r < b <==> 2 * (r * c) < b * c) by (nonlinear_arith)
        requires
            c > 0,
    ;
    assert(2 * r > b <==> 2 * (r * c) > b * c) by (nonlinear_arith)
        requires
            c > 0,
    ;
}

/// Rounding keeps the order of what is rounded.
pub proof fn lemma_round_monotone(a: nat, b: nat, d: nat)
    requires
        a <= b,
        d > 0,
    ensures
        round_half_even(a, d) <= round_half_even(b, d),
{
    lemma_fundamental_div_mod(a as int, d as int);
    lemma_fundamental_div_mod(b as int, d as int);
    let qa = a / d;
    let qb = b / d;
    let ra = a % d;
    let rb = b % d;
    lemma_div_is_ordered(a as int, b as int, d as int);
    if qa == qb {
        assert(ra <= rb) by (nonlinear_arith)
            requires
                a == d * qa + ra,
                b == d * qb + rb,
                qa == qb,
                a <= b,
        ;
    }
}

/// `a / b`, rounded half to even.
fn round_quotient(a: u128, b: u128) -> (n: u128)
    requires
        0 < b <= 0x10_0000_0000_0000_0000_0000_0000,
        a < u128::MAX,
    ensures
        n == round_half_even(a as nat, b as nat),
{
    let q: u128 = a / b;
    let r: u128 = a % b;
    proof {
        lemma_div_is_ordered_by_denominator(a as int, 1, b as int);
    }
    if 2 * r < b {
        q
    } else if 2 * r > b {
        q + 1
    } else if q % 2 == 0 {
        q
    } else {
        q + 1
    }
}

/// `sig * mult / 2^shift`, rounded half to even.
pub fn round_shifted(sig: u64, mult: u64, shift: u64) -> (n: u128)
    requires
        sig < 2 * HIDDEN_BIT,
        mult <= 1_000_000_000,
        shift > 0,
    ensures
        n == round_half_even((sig * mult) as nat, pow2(shift as nat)),
        n <= sig * mult,
{
    proof {
        assert(sig * mult <= 0x20_0000_0000_0000 * 1_000_000_000) by (nonlinear_arith)
            requires
                sig <= 0x20_0000_0000_0000,
                mult <= 1_000_000_000,
        ;
        assert(0 <= sig * mult) by (nonlinear_arith);
        lemma2_to64();
        lemma2_to64_rest();
        assert(pow2(100) == pow2(50) * pow2(50)) by {
            lemma_pow2_adds(50, 50);
        }
        assert(pow2(100) == 0x10_0000_0000_0000_0000_0000_0000);
    }
    let product: u128 = (sig as u128) * (mult as u128);
    if shift > 100 {
        proof {
            lemma_pow2_strictly_increases(100, shift as nat);
            lemma_fundamental_div_mod_converse(
                product as int,
                pow2(shift as nat) as int,
                0,
                product as int,
            );
        }
        return 0;
    }
    let mut d: u128 = 1;
    let mut i: u64 = 0;
    while i < shift
        invariant
            i <= shift <= 100,
            d == pow2(i as nat),
            pow2(100) == 0x10_0000_0000_0000_0000_0000_0000,
        decreases shift - i,
    {
        proof {
            lemma_pow2_unfold((i + 1) as nat);
            if i + 1 < 100 {
                lemma_pow2_strictly_increases((i + 1) as nat, 100);
            }
        }
        d = d * 2;
        i = i + 1;
    }
    proof {
        lemma_pow2_pos(shift as nat);
        if shift < 100 {
            lemma_pow2_strictly_increases(shift as nat, 100);
        }
        assert(d >= 2) by {
            lemma_pow2_unfold(shift as nat);
            lemma_pow2_pos((shift - 1) as nat);
        }
        lemma_fundamental_div_mod(product as int, d as int);
        let q: int = product as int / d as int;
        let r: int = product as int % d as int;
        assert(q + 1 <= product || r == product && q == 0 || product == 0) by (nonlinear_arith)
            requires
                product == d * q + r,
                0 <= r < d,
                d >= 2,
                q >= 0,
        ;
    }
    round_quotient(product, d)
}

/// The exponent of the least power of two that is no smaller than `n`.
pub open spec fn reaching(n: nat) -> nat
    decreases n,
{
    if n <= 1 {
        0
    } else {
        1 + reaching((n + 1) / 2)
    }
}

/// The significand of the number nearest to `1 / n`, a tie going to the even one: `1 / n` in
/// units of `2^-(52 + reaching(n))`, which has 53 bits before its point.
pub open spec fn reciprocal_significand(n: nat) -> nat {
    round_half_even(pow2(52 + reaching(n)), n)
}

/// The number nearest to `1 / n`, in units of the smallest positive number.
pub open spec fn reciprocal_units(n: nat) -> nat {
    reciprocal_significand(n) * pow2((1022 - reaching(n)) as nat)
}

/// `n` lies above half its reaching power of two, and no higher than the whole of it.
pub proof fn lemma_reaching(n: nat)
    requires
        n > 0,
    ensures
        n <= pow2(reaching(n)) < 2 * n,
    decreases n,
{
    if n <= 1 {
        lemma2_to64();
    } else {
        let half = (n + 1) / 2;
        lemma_reaching(half);
        lemma_pow2_unfold(reaching(n));
        if n % 2 == 1 {
            lemma_pow2_unfold(reaching(half));
        }
    }
}

/// How far apart two values are.
pub open spec fn apart(a: int, b: int) -> int {
    if a <= b {
        b - a
    } else {
        a - b
    }
}

proof fn lemma_rounded_is_nearest(a: nat, b: nat, k: int)
    requires
        b > 0,
    ensures
        apart(round_half_even(a, b) as int * b, a as int) <= apart(k * b, a as int),
{
    let q: int = (a / b) as int;
    let r: int = (a % b) as int;
    lemma_fundamental_div_mod(a as int, b as int);
    assert(q * b == a - r && (q + 1) * b == a - r + b) by (nonlinear_arith)
        requires
            a == b * q + r,
    ;
    if k <= q {
        assert(k * b <= q * b) by (nonlinear_arith)
            requires
                k <= q,
                b > 0,
        ;
    } else {
        assert(k * b >= (q + 1) * b) by (nonlinear_arith)
            requires
                k >= q + 1,
                b > 0,
        ;
    }
}

/// No finite number is nearer to `1 / n` than the one that stands for it.
pub proof fn law_reciprocal_is_nearest(n: u32, y: Number)
    requires
        n > 0,
        y.finite(),
    ensures
        apart(reciprocal_units(n as nat) * n, one() as int) <= apart(y.units() * n, one() as int),
{
    let b = reaching(n as nat);
    lemma_reaching(n as nat);
    lemma2_to64();
    lemma2_to64_rest();
    assert(b <= 32) by {
        if b > 32 {
            lemma_pow2_unfold(b);
            if b > 33 {
                lemma_pow2_strictly_increases(32, (b - 1) as nat);
            }
        }
    }
    let s = pow2((1022 - b) as nat);
    lemma_pow2_pos((1022 - b) as nat);
    lemma_pow2_adds(52 + b, (1022 - b) as nat);
    lemma_pow2_adds(52, b);
    let exponent = y.magnitude() / HIDDEN_BIT as int;
    let fraction = y.magnitude() % HIDDEN_BIT as int;
    let e: nat = if exponent == 0 {
        0
    } else {
        (exponent - 1) as nat
    };
    let m: int = if exponent == 0 {
        fraction
    } else {
        HIDDEN_BIT + fraction
    };
    let size: int = magnitude_units(y.magnitude()) as int;
    assert(size == m * pow2(e)) by (nonlinear_arith)
        requires
            exponent == 0 ==> size == m && pow2(e) == 1,
            exponent != 0 ==> size == m * pow2(e),
    ;
    if y.negative() {
        lemma_reciprocal_among_multiples(n, 0);
        assert(0 * s == 0);
        assert(y.units() * n <= 0) by (nonlinear_arith)
            requires
                y.units() <= 0,
        ;
    } else if e >= 1022 - b {
        let c = pow2((e - (1022 - b)) as nat);
        lemma_pow2_adds((1022 - b) as nat, (e - (1022 - b)) as nat);
        assert(m * (s * c) == (m * c) * s) by (nonlinear_arith);
        lemma_reciprocal_among_multiples(n, m * c);
    } else {
        lemma_reciprocal_among_multiples(n, 0x10_0000_0000_0000);
        lemma_pow2_pos(e);
        lemma_pow2_unfold((1022 - b) as nat);
        if e < 1021 - b {
            lemma_pow2_strictly_increases(e, (1021 - b) as nat);
        }
        let edge: int = 0x10_0000_0000_0000 * s as int;
        assert(size <= edge) by (nonlinear_arith)
            requires
                size == m * pow2(e),
                0 <= m < 0x20_0000_0000_0000,
                2 * pow2(e) <= s,
                edge == 0x10_0000_0000_0000 * s as int,
        ;
        assert(size * n <= edge * n && edge * n <= one()) by (nonlinear_arith)
            requires
                size <= edge,
                edge == 0x10_0000_0000_0000 * s as int,
                n <= pow2(b),
                one() == (0x10_0000_0000_0000 * pow2(b)) * s,
                s > 0,
        ;
    }
}

/// No multiple of the significand's unit is nearer to `1 / n`.
proof fn lemma_reciprocal_among_multiples(n: u32, k: int)
    requires
        n > 0,
        reaching(n as nat) <= 1022,
    ensures
        apart(reciprocal_units(n as nat) * n, one() as int) <= apart(
            k * pow2((1022 - reaching(n as nat)) as nat) * n,
            one() as int,
        ),
{
    let b = reaching(n as nat);
    let top: int = pow2(52 + b) as int;
    let s: int = pow2((1022 - b) as nat) as int;
    let sig: int = reciprocal_significand(n as nat) as int;
    let w: int = n as int;
    lemma_pow2_pos((1022 - b) as nat);
    lemma_pow2_adds(52 + b, (1022 - b) as nat);
    lemma_rounded_is_nearest(pow2(52 + b), n as nat, k);
    assert(sig * s * w - top * s == (sig * w - top) * s) by (nonlinear_arith);
    assert(k * s * w - top * s == (k * w - top) * s) by (nonlinear_arith);
    let x = sig * w - top;
    let y = k * w - top;
    assert(apart(x * s, 0) <= apart(y * s, 0)) by (nonlinear_arith)
        requires
            apart(x, 0) <= apart(y, 0),
            s > 0,
    ;
}

/// The number nearest to `1 / n`: its significand, and how many of the bits of it lie behind
/// the point.
pub fn reciprocal(n: u32) -> (r: (u64, u64))
    requires
        n > 0,
    ensures
        r.0 == reciprocal_significand(n as nat),
        r.0 < 2 * HIDDEN_BIT,
        r.1 == 52 + reaching(n as nat),
        r.1 <= 84,
{
    let mut p: u64 = 1;
    let mut k: u64 = 0;
    proof {
        lemma2_to64();
        lemma2_to64_rest();
    }
    while p < n as u64
        invariant
            p == pow2(k as nat),
            1 <= p < 2 * n,
            k <= 32,
            n <= u32::MAX,
            pow2(32) == 0x1_0000_0000,
        decreases 2 * n - p,
    {
        proof {
            lemma_pow2_unfold((k + 1) as nat);
            assert(k < 32);
        }
        p = p * 2;
        k = k + 1;
    }
    proof {
        let top = reaching(n as nat);
        lemma_reaching(n as nat);
        if k < top {
            lemma_pow2_unfold(top);
            if k < top - 1 {
                lemma_pow2_strictly_increases(k as nat, (top - 1) as nat);
            }
        } else if top < k {
            lemma_pow2_unfold(k as nat);
            if top < k - 1 {
                lemma_pow2_strictly_increases(top, (k - 1) as nat);
            }
        }
        lemma_pow2_adds(52, k as nat);
        let whole: int = 0x10_0000_0000_0000 * p;
        let q = whole / n as int;
        lemma_fundamental_div_mod(whole, n as int);
        assert(q <= 0x1f_ffff_ffff_ffff && (whole % n as int > 0 ==> q < 0x1f_ffff_ffff_ffff))
            by (nonlinear_arith)
            requires
                whole == n * q + whole % n as int,
                0 <= whole % n as int,
                whole == 0x10_0000_0000_0000 * p,
                p <= 2 * n - 1,
                0 < n <= 0x10_0000_0000_0000,
        ;
    }
    let sig: u128 = round_quotient(0x10_0000_0000_0000u128 * (p as u128), n as u128);
    (sig as u64, 52 + k)
}

/// Rounding goes to the nearest whole number, and of two that are equally near to the even one.
pub proof fn law_rounding_is_to_the_nearest(a: nat, b: nat)
    requires
        b > 0,
    ensures
        2 * apart(round_half_even(a, b) as int * b, a as int) <= b,
        2 * apart(round_half_even(a, b) as int * b, a as int) == b ==> round_half_even(a, b) % 2
            == 0,
{
    let q: int = (a / b) as int;
    let r: int = (a % b) as int;
    lemma_fundamental_div_mod(a as int, b as int);
    assert(q * b == a - r && (q + 1) * b == a - r + b) by (nonlinear_arith)
        requires
            a == b * q + r,
    ;
}

/// Numbers are ordered as their values are; an infinity lies beyond all of them on its side,
/// and a NaN is neither below nor above anything.
pub proof fn law_comparing_is_by_value(a: Number, b: Number)
    ensures
        a.finite() && b.finite() ==> (a.below(b) <==> a.units() < b.units()) && (a.at_most(b)
            <==> a.units() <= b.units()),
        a.finite() && !b.finite() && !b.nan() ==> (a.below(b) <==> !b.negative()) && (b.below(a)
            <==> b.negative()),
        a.nan() || b.nan() ==> !a.below(b) && !a.at_most(b),
        !a.nan() && !b.nan() ==> (a.at_most(b) <==> !b.below(a)),
{
    if a.finite() && b.finite() {
        lemma_rank_orders_values(a, b);
    }
}

/// Comparing with a whole number is by value.
pub proof fn law_comparing_with_a_whole_number_is_by_value(a: Number, n: int)
    requires
        a.finite(),
    ensures
        a.below_int(n) <==> a.units() < n * one(),
        a.above_int(n) <==> a.units() > n * one(),
        a.at_least_int(n) <==> a.units() >= n * one(),
        a.at_most_int(n) <==> a.units() <= n * one(),
{
}

/// The total order tells any two patterns apart, and orders numbers by value.
pub proof fn law_total_order_tells_patterns_apart(a: Number, b: Number)
    ensures
        a.total_rank() == b.total_rank() <==> a.bits == b.bits,
        a.finite() && b.finite() && a.units() < b.units() ==> a.total_rank() < b.total_rank(),
{
    if a.finite() && b.finite() {
        lemma_rank_orders_values(a, b);
    }
}

/// The first bit of a pattern is the sign; the rest is a number below the pattern of the
/// infinity, an infinity at it, and neither above it.
pub proof fn law_patterns_are_told_apart(x: Number)
    ensures
        x.negative() <==> x.bits >= 0x8000_0000_0000_0000,
        x.finite() <==> x.bits < 0x7ff0_0000_0000_0000 || 0x8000_0000_0000_0000 <= x.bits
            < 0xfff0_0000_0000_0000,
        x.nan() <==> 0x7ff0_0000_0000_0000 < x.bits < 0x8000_0000_0000_0000
            || 0xfff0_0000_0000_0000 < x.bits,
{
}

} // verus!
