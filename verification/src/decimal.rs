//! Decimal text: whole numbers, and `binary64` numbers with a fixed count of decimals.

use crate::number::{self, Number, HIDDEN_BIT};
use vstd::arithmetic::div_mod::*;
use vstd::arithmetic::power2::*;
use vstd::prelude::*;

verus! {

/// `String::push` appends one character.
pub assume_specification[ String::push ](s: &mut String, c: char)
    ensures
        final(s)@ == old(s)@.push(c),
;

/// The character of a decimal digit.
pub open spec fn digit(d: int) -> char {
    if d == 0 {
        '0'
    } else if d == 1 {
        '1'
    } else if d == 2 {
        '2'
    } else if d == 3 {
        '3'
    } else if d == 4 {
        '4'
    } else if d == 5 {
        '5'
    } else if d == 6 {
        '6'
    } else if d == 7 {
        '7'
    } else if d == 8 {
        '8'
    } else {
        '9'
    }
}

/// The decimal digits of `n`, without leading zeros.
pub open spec fn dec(n: nat) -> Seq<char>
    decreases n,
{
    if n < 10 {
        seq![digit(n as int)]
    } else {
        dec(n / 10).push(digit((n % 10) as int))
    }
}

/// The last `count` decimal digits of `n`, zeros in front where there are fewer.
pub open spec fn last_digits(n: nat, count: nat) -> Seq<char>
    decreases count,
{
    if count == 0 {
        Seq::empty()
    } else {
        last_digits(n / 10, (count - 1) as nat).push(digit((n % 10) as int))
    }
}

/// Ten to the power `e`.
pub open spec fn pow10(e: nat) -> nat
    decreases e,
{
    if e == 0 {
        1
    } else {
        10 * pow10((e - 1) as nat)
    }
}

/// `n` tenths, hundredths, ... as `decimals` says, written with a decimal point.
pub open spec fn point_text(n: nat, decimals: nat) -> Seq<char> {
    if decimals == 0 {
        dec(n)
    } else {
        dec(n / pow10(decimals)) + "."@ + last_digits(n, decimals)
    }
}

/// A number's magnitude with `decimals` digits behind the point, rounded half to even.
pub open spec fn magnitude_text(x: Number, decimals: nat) -> Seq<char> {
    if x.finite() {
        point_text(
            number::round_half_even(
                number::magnitude_units(x.magnitude()) * pow10(decimals),
                number::one(),
            ),
            decimals,
        )
    } else {
        "inf"@
    }
}

/// A number with `decimals` digits behind the point, as the format `{:.decimals}` writes it.
pub open spec fn fixed_text(x: Number, decimals: nat) -> Seq<char> {
    if x.nan() {
        "NaN"@
    } else if x.negative() {
        "-"@ + magnitude_text(x, decimals)
    } else {
        magnitude_text(x, decimals)
    }
}

/// A number with its sign always shown, as the format `{:+.decimals}` writes it.
pub open spec fn signed_text(x: Number, decimals: nat) -> Seq<char> {
    if !x.nan() && !x.negative() {
        "+"@ + magnitude_text(x, decimals)
    } else {
        fixed_text(x, decimals)
    }
}

/// `text` moved right by spaces until it fills `width` characters.
pub open spec fn right_aligned(text: Seq<char>, width: nat) -> Seq<char> {
    if text.len() >= width {
        text
    } else {
        Seq::new((width - text.len()) as nat, |i: int| ' ') + text
    }
}

/// `text` followed by spaces until it fills `width` characters.
pub open spec fn left_aligned(text: Seq<char>, width: nat) -> Seq<char> {
    if text.len() >= width {
        text
    } else {
        text + Seq::new((width - text.len()) as nat, |i: int| ' ')
    }
}

/// A number rounded to whole degrees and zero-padded to three characters, as `{:03.0}`.
pub open spec fn degrees_text(x: Number) -> Seq<char> {
    if x.nan() || !x.finite() {
        fixed_text(x, 0)
    } else {
        let body = magnitude_text(x, 0);
        let sign = if x.negative() {
            "-"@
        } else {
            ""@
        };
        let width: int = if x.negative() {
            2
        } else {
            3
        };
        if body.len() >= width {
            sign + body
        } else {
            sign + Seq::new((width - body.len()) as nat, |i: int| '0') + body
        }
    }
}

fn digit_char(d: u8) -> (c: char)
    requires
        d < 10,
    ensures
        c == digit(d as int),
{
    if d == 0 {
        '0'
    } else if d == 1 {
        '1'
    } else if d == 2 {
        '2'
    } else if d == 3 {
        '3'
    } else if d == 4 {
        '4'
    } else if d == 5 {
        '5'
    } else if d == 6 {
        '6'
    } else if d == 7 {
        '7'
    } else if d == 8 {
        '8'
    } else {
        '9'
    }
}

/// The number that digits stand for, the ones first.
spec fn digits_value(s: Seq<u8>) -> nat
    decreases s.len(),
{
    if s.len() == 0 {
        0
    } else {
        (s[0] + 10 * digits_value(s.drop_first())) as nat
    }
}

/// Decimal digits, the ones first, with no zero in the last place unless it is the only one.
spec fn digits_wf(s: Seq<u8>) -> bool {
    &&& s.len() > 0
    &&& forall|i: int| 0 <= i < s.len() ==> #[trigger] s[i] < 10
    &&& s.len() > 1 ==> s.last() != 0
}

spec fn digits_text(s: Seq<u8>) -> Seq<char> {
    Seq::new(s.len(), |i: int| digit(s[s.len() - 1 - i] as int))
}

proof fn lemma_digits_value_push(s: Seq<u8>, d: u8)
    ensures
        digits_value(s.push(d)) == digits_value(s) + pow10(s.len()) * d,
    decreases s.len(),
{
    let t = s.push(d);
    if s.len() == 0 {
        assert(t.drop_first() =~= Seq::<u8>::empty());
        assert(digits_value(t) == d + 10 * digits_value(t.drop_first()));
        assert(pow10(0) * d == d) by (nonlinear_arith)
            requires
                pow10(0) == 1,
        ;
    } else {
        lemma_digits_value_push(s.drop_first(), d);
        assert(t.drop_first() =~= s.drop_first().push(d));
        let p = pow10((s.len() - 1) as nat);
        assert(10 * (p * d) == (10 * p) * d) by (nonlinear_arith);
        assert(t[0] == s[0]);
    }
}

proof fn lemma_digits_value_positive(s: Seq<u8>)
    requires
        s.len() > 0,
        s.last() != 0,
    ensures
        digits_value(s) >= 1,
    decreases s.len(),
{
    if s.len() > 1 {
        assert(s.drop_first().last() == s.last());
        lemma_digits_value_positive(s.drop_first());
    }
}

proof fn lemma_digits_text(s: Seq<u8>)
    requires
        digits_wf(s),
    ensures
        digits_text(s) == dec(digits_value(s)),
    decreases s.len(),
{
    let rest = s.drop_first();
    if s.len() == 1 {
        assert(rest =~= Seq::<u8>::empty());
        assert(digits_value(s) == s[0] + 10 * digits_value(rest));
        assert(digits_text(s) =~= seq![digit(s[0] as int)]);
    } else {
        assert(rest.last() == s.last());
        lemma_digits_value_positive(rest);
        assert forall|i: int| 0 <= i < rest.len() implies #[trigger] rest[i] < 10 by {
            assert(rest[i] == s[i + 1]);
        }
        lemma_digits_text(rest);
        let v = digits_value(s);
        assert(v / 10 == digits_value(rest) && v % 10 == s[0]);
        assert(digits_text(s) =~= digits_text(rest).push(digit(s[0] as int)));
    }
}

fn digits_of(n: u128) -> (v: Vec<u8>)
    ensures
        digits_wf(v@),
        digits_value(v@) == n,
{
    let mut v: Vec<u8> = Vec::new();
    let mut rest: u128 = n;
    assert(pow10(0) * n == n) by (nonlinear_arith)
        requires
            pow10(0) == 1,
    ;
    while rest >= 10
        invariant
            forall|i: int| 0 <= i < v.len() ==> #[trigger] v@[i] < 10,
            digits_value(v@) + pow10(v@.len()) * rest == n,
            v.len() > 0 ==> rest > 0,
        decreases rest,
    {
        let d: u8 = (rest % 10) as u8;
        proof {
            lemma_digits_value_push(v@, d);
            let p = pow10(v@.len());
            let q: int = rest as int / 10;
            assert(p * rest == p * d + (10 * p) * q) by (nonlinear_arith)
                requires
                    rest == 10 * q + d,
            ;
        }
        v.push(d);
        rest = rest / 10;
    }
    let d: u8 = rest as u8;
    proof {
        lemma_digits_value_push(v@, d);
    }
    v.push(d);
    v
}

fn text_of_digits(v: &Vec<u8>) -> (s: String)
    requires
        digits_wf(v@),
    ensures
        s@ == dec(digits_value(v@)),
{
    let mut s = String::new();
    let mut i: usize = v.len();
    while i > 0
        invariant
            i <= v.len(),
            digits_wf(v@),
            s@ == Seq::new((v.len() - i) as nat, |j: int| digit(v@[v.len() - 1 - j] as int)),
        decreases i,
    {
        i = i - 1;
        let d: u8 = v[i];
        s.push(digit_char(d));
        assert(s@ =~= Seq::new(
            (v.len() - i) as nat,
            |j: int| digit(v@[v.len() - 1 - j] as int),
        ));
    }
    proof {
        assert(s@ =~= digits_text(v@));
        lemma_digits_text(v@);
    }
    s
}

/// The decimal digits of a whole number.
pub fn decimal(n: u128) -> (s: String)
    ensures
        s@ == dec(n as nat),
{
    let v = digits_of(n);
    text_of_digits(&v)
}

proof fn lemma_digits_split(s: Seq<u8>, i: int)
    requires
        0 <= i < s.len(),
    ensures
        digits_value(s.skip(i)) == s[i] + 10 * digits_value(s.skip(i + 1)),
{
    assert(s.skip(i).drop_first() =~= s.skip(i + 1));
}

fn double_digits(v: &Vec<u8>) -> (out: Vec<u8>)
    requires
        digits_wf(v@),
    ensures
        digits_wf(out@),
        digits_value(out@) == 2 * digits_value(v@),
{
    let mut out: Vec<u8> = Vec::new();
    let mut carry: u8 = 0;
    let mut i: usize = 0;
    proof {
        assert(v@.skip(0) =~= v@);
        assert(pow10(0) * (2 * digits_value(v@)) == 2 * digits_value(v@)) by (nonlinear_arith)
            requires
                pow10(0) == 1,
        ;
    }
    while i < v.len()
        invariant
            i <= v.len(),
            out.len() == i,
            carry <= 1,
            digits_wf(v@),
            forall|j: int| 0 <= j < out.len() ==> #[trigger] out@[j] < 10,
            digits_value(out@) + pow10(i as nat) * (2 * digits_value(v@.skip(i as int)) + carry)
                == 2 * digits_value(v@),
            i > 1 && i == v.len() ==> out@.last() != 0 || carry == 1,
        decreases v.len() - i,
    {
        let t: u8 = v[i] * 2 + carry;
        let (d, c): (u8, u8) = if t >= 10 {
            (t - 10, 1)
        } else {
            (t, 0)
        };
        proof {
            lemma_digits_split(v@, i as int);
            lemma_digits_value_push(out@, d);
            let p = pow10(i as nat);
            let rest = digits_value(v@.skip(i + 1));
            assert(p * (2 * (v@[i as int] + 10 * rest) + carry) == p * d + (10 * p) * (2 * rest
                + c)) by (nonlinear_arith)
                requires
                    2 * v@[i as int] + carry == 10 * c + d,
            ;
            if i + 1 == v.len() && v.len() > 1 {
                assert(v@.last() == v@[i as int]);
            }
        }
        out.push(d);
        carry = c;
        i = i + 1;
    }
    proof {
        assert(v@.skip(v.len() as int) =~= Seq::<u8>::empty());
        lemma_digits_value_push(out@, 1);
        let p = pow10(v@.len());
        assert(p * (2 * 0 + carry) == if carry == 1 {
            p * 1
        } else {
            0
        }) by (nonlinear_arith)
            requires
                carry <= 1,
        ;
    }
    if carry == 1 {
        out.push(1);
    }
    out
}

proof fn lemma_last_digits_of_multiple(n: nat, count: nat)
    ensures
        last_digits(n * pow10(count), count) == Seq::new(count, |i: int| '0'),
    decreases count,
{
    if count > 0 {
        let less = (count - 1) as nat;
        lemma_last_digits_of_multiple(n, less);
        let p = pow10(less);
        assert(n * (10 * p) == 10 * (n * p)) by (nonlinear_arith);
        assert((n * pow10(count)) / 10 == n * p);
        assert((n * pow10(count)) % 10 == 0);
    }
    assert(last_digits(n * pow10(count), count) =~= Seq::new(count, |i: int| '0'));
}

proof fn lemma_pow10_positive(e: nat)
    ensures
        pow10(e) > 0,
    decreases e,
{
    if e > 0 {
        lemma_pow10_positive((e - 1) as nat);
    }
}

fn push_last_digits(out: &mut String, n: u128, count: u8)
    ensures
        final(out)@ == old(out)@ + last_digits(n as nat, count as nat),
    decreases count,
{
    if count > 0 {
        push_last_digits(out, n / 10, count - 1);
        out.push(digit_char((n % 10) as u8));
    }
    assert(out@ =~= old(out)@ + last_digits(n as nat, count as nat));
}

fn power_of_ten(e: u8) -> (p: u64)
    requires
        e <= 9,
    ensures
        p == pow10(e as nat),
        p <= 1_000_000_000,
    decreases e,
{
    proof {
        reveal_with_fuel(pow10, 10);
    }
    if e == 0 {
        1
    } else {
        power_of_ten(e - 1) * 10
    }
}

fn push_point_text(out: &mut String, n: u128, decimals: u8)
    requires
        decimals <= 9,
    ensures
        final(out)@ == old(out)@ + point_text(n as nat, decimals as nat),
{
    if decimals == 0 {
        out.append(decimal(n).as_str());
    } else {
        proof {
            lemma_pow10_positive(decimals as nat);
        }
        let p: u64 = power_of_ten(decimals);
        out.append(decimal(n / (p as u128)).as_str());
        out.append(".");
        push_last_digits(out, n, decimals);
        assert(out@ =~= old(out)@ + point_text(n as nat, decimals as nat));
    }
}

/// Writes `sig * 2^exponent`, which is a whole number, with zeros behind its point.
fn push_integral(out: &mut String, sig: u64, exponent: u64, decimals: u8)
    requires
        sig < 2 * HIDDEN_BIT,
        decimals <= 9,
    ensures
        final(out)@ == old(out)@ + point_text(
            (sig * pow2(exponent as nat) * pow10(decimals as nat)) as nat,
            decimals as nat,
        ),
{
    let mut v = digits_of(sig as u128);
    let mut i: u64 = 0;
    proof {
        lemma2_to64();
    }
    while i < exponent
        invariant
            i <= exponent,
            digits_wf(v@),
            digits_value(v@) == sig * pow2(i as nat),
        decreases exponent - i,
    {
        proof {
            lemma_pow2_unfold((i + 1) as nat);
            let p = pow2(i as nat);
            assert(2 * (sig * p) == sig * (2 * p)) by (nonlinear_arith);
        }
        v = double_digits(&v);
        i = i + 1;
    }
    let ghost n: nat = digits_value(v@);
    let ghost d: nat = decimals as nat;
    proof {
        lemma_pow10_positive(d);
        lemma_div_by_multiple(n as int, pow10(d) as int);
        lemma_last_digits_of_multiple(n, d);
        assert(n * pow10(0) == n) by (nonlinear_arith)
            requires
                pow10(0) == 1,
        ;
    }
    out.append(text_of_digits(&v).as_str());
    if decimals > 0 {
        out.append(".");
        let ghost before = out@;
        let mut j: u8 = 0;
        while j < decimals
            invariant
                j <= decimals,
                out@ == before + Seq::new(j as nat, |i: int| '0'),
            decreases decimals - j,
        {
            out.push('0');
            j = j + 1;
            assert(out@ =~= before + Seq::new(j as nat, |i: int| '0'));
        }
    }
    assert(out@ =~= old(out)@ + point_text((n * pow10(d)) as nat, d));
}

fn push_magnitude(out: &mut String, x: &Number, decimals: u8)
    requires
        decimals <= 9,
        !x.nan(),
    ensures
        final(out)@ == old(out)@ + magnitude_text(*x, decimals as nat),
{
    if !x.is_finite() {
        out.append("inf");
        return ;
    }
    let (sig, exponent): (u64, u64) = x.parts();
    let ghost d: nat = decimals as nat;
    let ghost e: nat = exponent as nat;
    if exponent >= 1074 {
        proof {
            let scale = pow2((e - 1074) as nat);
            lemma_pow2_adds((e - 1074) as nat, 1074);
            lemma_pow2_pos(1074);
            let n = (sig * scale * pow10(d)) as nat;
            assert(sig * (scale * pow2(1074)) * pow10(d) == n * pow2(1074)) by (nonlinear_arith)
                requires
                    n == sig * scale * pow10(d),
            ;
            lemma_div_by_multiple(n as int, pow2(1074) as int);
            lemma_mod_multiples_basic(n as int, pow2(1074) as int);
        }
        push_integral(out, sig, exponent - 1074, decimals);
    } else {
        let p: u64 = power_of_ten(decimals);
        let shift: u64 = 1074 - exponent;
        proof {
            let c = pow2(e);
            lemma_pow2_pos(e);
            lemma_pow2_pos(shift as nat);
            lemma_pow2_adds(shift as nat, e);
            number::lemma_round_scaled((sig * p) as nat, pow2(shift as nat), c);
            assert((sig * p) * c == (sig * c) * p) by (nonlinear_arith);
        }
        let n: u128 = number::round_shifted(sig, p, shift);
        push_point_text(out, n, decimals);
    }
}

/// A number with `decimals` digits behind its point.
pub fn fixed(x: &Number, decimals: u8) -> (s: String)
    requires
        decimals <= 9,
    ensures
        s@ == fixed_text(*x, decimals as nat),
{
    if x.is_nan() {
        return "NaN".to_owned();
    }
    let mut s = String::new();
    if x.is_negative() {
        s.append("-");
    }
    push_magnitude(&mut s, x, decimals);
    assert(s@ =~= fixed_text(*x, decimals as nat));
    s
}

/// A number with its sign always shown.
pub fn signed(x: &Number, decimals: u8) -> (s: String)
    requires
        decimals <= 9,
    ensures
        s@ == signed_text(*x, decimals as nat),
{
    if !x.is_nan() && !x.is_negative() {
        let mut s = "+".to_owned();
        push_magnitude(&mut s, x, decimals);
        s
    } else {
        fixed(x, decimals)
    }
}

fn push_repeated(out: &mut String, c: char, count: usize)
    ensures
        final(out)@ == old(out)@ + Seq::new(count as nat, |i: int| c),
{
    let mut j: usize = 0;
    assert(out@ =~= old(out)@ + Seq::new(0, |i: int| c));
    while j < count
        invariant
            j <= count,
            out@ == old(out)@ + Seq::new(j as nat, |i: int| c),
        decreases count - j,
    {
        out.push(c);
        j = j + 1;
        assert(out@ =~= old(out)@ + Seq::new(j as nat, |i: int| c));
    }
}

/// `text`, with spaces before it up to `width` characters.
pub fn align_right(text: &str, width: usize) -> (s: String)
    ensures
        s@ == right_aligned(text@, width as nat),
{
    let n: usize = text.unicode_len();
    let mut s = String::new();
    if n < width {
        push_repeated(&mut s, ' ', width - n);
    }
    s.append(text);
    assert(s@ =~= right_aligned(text@, width as nat));
    s
}

/// `text`, with spaces behind it up to `width` characters.
pub fn align_left(text: &str, width: usize) -> (s: String)
    ensures
        s@ == left_aligned(text@, width as nat),
{
    let n: usize = text.unicode_len();
    let mut s = text.to_owned();
    if n < width {
        push_repeated(&mut s, ' ', width - n);
    }
    s
}

/// A number in whole degrees, zero-padded to three characters.
pub fn degrees(x: &Number) -> (s: String)
    ensures
        s@ == degrees_text(*x),
{
    if x.is_nan() || !x.is_finite() {
        return fixed(x, 0);
    }
    let mut s = String::new();
    let mut width: usize = 3;
    if x.is_negative() {
        s.append("-");
        width = 2;
    }
    let mut body = String::new();
    push_magnitude(&mut body, x, 0);
    let n: usize = body.as_str().unicode_len();
    if n < width {
        push_repeated(&mut s, '0', width - n);
    }
    s.append(body.as_str());
    proof {
        reveal_strlit("");
        assert(body@ =~= magnitude_text(*x, 0));
    }
    assert(s@ =~= degrees_text(*x));
    s
}

/// The digits of a number stand for it: read as decimal they give it back, so no two numbers
/// have the same digits.
pub proof fn law_digits_stand_for_the_number(n: nat)
    ensures
        crate::text::digits_value(dec(n)) == n,
        forall|i: int| 0 <= i < dec(n).len() ==> '0' <= #[trigger] dec(n)[i] <= '9',
        n > 0 ==> dec(n)[0] != '0',
        dec(n).len() > 0,
    decreases n,
{
    if n < 10 {
        let one = dec(n);
        assert(one.drop_last() =~= Seq::<char>::empty());
        assert(crate::text::digits_value(one.drop_last()) == 0);
        assert(one.last() == digit(n as int));
    } else {
        law_digits_stand_for_the_number(n / 10);
        let front = dec(n / 10);
        let all = dec(n);
        assert(all.drop_last() =~= front);
        assert(all.last() == digit((n % 10) as int));
        assert forall|i: int| 0 <= i < all.len() implies '0' <= #[trigger] all[i] <= '9' by {
            if i < front.len() {
                assert(all[i] == front[i]);
            }
        }
        assert(all[0] == front[0]);
    }
}

proof fn lemma_last_digits(n: nat, count: nat)
    ensures
        last_digits(n, count).len() == count,
        crate::text::digits_value(last_digits(n, count)) == n % pow10(count),
        pow10(count) > 0,
    decreases count,
{
    if count > 0 {
        let less = (count - 1) as nat;
        lemma_last_digits(n / 10, less);
        let all = last_digits(n, count);
        assert(all.drop_last() =~= last_digits(n / 10, less));
        assert(all.last() == digit((n % 10) as int));
        let p = pow10(less);
        lemma_mod_breakdown(n as int, 10, p as int);
        assert(10 * p == pow10(count));
    } else {
        assert(n % 1 == 0);
    }
}

/// A number of tenths, hundredths and so on is written with as many digits behind the point: in
/// front of it stand the whole units, behind it the rest.
pub proof fn law_point_parts_units_from_the_rest(n: nat, decimals: nat)
    requires
        decimals > 0,
    ensures
        ({
            let front = dec(n / pow10(decimals));
            let behind = last_digits(n, decimals);
            &&& point_text(n, decimals) == front + "."@ + behind
            &&& behind.len() == decimals
            &&& crate::text::digits_value(front) * pow10(decimals) + crate::text::digits_value(
                behind,
            ) == n
        }),
{
    lemma_last_digits(n, decimals);
    law_digits_stand_for_the_number(n / pow10(decimals));
    lemma_fundamental_div_mod(n as int, pow10(decimals) as int);
    let p = pow10(decimals);
    assert((n / p) * p == p * (n / p)) by (nonlinear_arith);
}

/// What is written with decimals lies within half a unit of the last of them.
pub proof fn law_decimals_are_the_nearest(x: Number, decimals: nat)
    requires
        x.finite(),
    ensures
        ({
            let n = number::round_half_even(
                number::magnitude_units(x.magnitude()) * pow10(decimals),
                number::one(),
            );
            let written = if x.negative() {
                "-"@ + point_text(n, decimals)
            } else {
                point_text(n, decimals)
            };
            &&& fixed_text(x, decimals) == written
            &&& 2 * number::apart(
                n as int * number::one(),
                (number::magnitude_units(x.magnitude()) * pow10(decimals)) as int,
            ) <= number::one()
        }),
{
    lemma_pow2_pos(1074);
    number::law_rounding_is_to_the_nearest(
        number::magnitude_units(x.magnitude()) * pow10(decimals),
        number::one(),
    );
}

/// A sign is always shown: a plus where a number that is not negative would have none.
pub proof fn law_signed_text_shows_its_sign(x: Number, decimals: nat)
    requires
        !x.nan(),
    ensures
        !x.negative() ==> signed_text(x, decimals) == "+"@ + fixed_text(x, decimals),
        x.negative() ==> signed_text(x, decimals) == fixed_text(x, decimals),
{
}

/// Aligning fills up with blanks to the width and leaves the text as it is at its side.
pub proof fn law_aligning_only_adds_blanks(text: Seq<char>, width: nat)
    ensures
        ({
            let n: nat = if text.len() < width {
                width
            } else {
                text.len()
            };
            &&& right_aligned(text, width).len() == n
            &&& left_aligned(text, width).len() == n
            &&& right_aligned(text, width).skip(n - text.len()) == text
            &&& left_aligned(text, width).take(text.len() as int) == text
            &&& forall|i: int|
                0 <= i < n - text.len() ==> #[trigger] right_aligned(text, width)[i] == ' '
            &&& forall|i: int|
                text.len() <= i < n ==> #[trigger] left_aligned(text, width)[i] == ' '
        }),
{
    let n: nat = if text.len() < width {
        width
    } else {
        text.len()
    };
    assert(right_aligned(text, width).skip(n - text.len()) =~= text);
    assert(left_aligned(text, width).take(text.len() as int) =~= text);
}

/// A bearing is written in whole degrees with at least three characters, zeros in front.
pub proof fn law_degrees_have_three_digits(x: Number)
    requires
        x.finite(),
        !x.negative(),
    ensures
        ({
            let body = fixed_text(x, 0);
            let all = degrees_text(x);
            &&& all.len() == (if body.len() < 3 {
                3
            } else {
                body.len()
            })
            &&& all.skip(all.len() - body.len()) == body
            &&& forall|i: int| 0 <= i < all.len() - body.len() ==> #[trigger] all[i] == '0'
        }),
{
    reveal_strlit("");
    let body = fixed_text(x, 0);
    let all = degrees_text(x);
    assert(all.skip(all.len() - body.len()) =~= body);
}

/// What is no number is named so, whatever the decimals; a sign goes in front of what has one.
pub proof fn law_what_is_no_finite_number(x: Number, decimals: nat)
    requires
        !x.finite(),
    ensures
        x.nan() ==> fixed_text(x, decimals) == "NaN"@,
        !x.nan() && !x.negative() ==> fixed_text(x, decimals) == "inf"@,
        !x.nan() && x.negative() ==> fixed_text(x, decimals) == "-"@ + "inf"@,
        degrees_text(x) == fixed_text(x, 0),
{
}

/// A negative bearing keeps its sign in front of the zeros, within the same width.
pub proof fn law_negative_degrees_keep_their_sign(x: Number)
    requires
        x.finite(),
        x.negative(),
    ensures
        ({
            let all = degrees_text(x);
            let body = fixed_text(x, 0);
            &&& all.len() == (if body.len() < 3 {
                3
            } else {
                body.len()
            })
            &&& all[0] == '-'
            &&& all.skip(all.len() - body.len() + 1) == body.skip(1)
            &&& forall|i: int| 1 <= i < all.len() - body.len() + 1 ==> #[trigger] all[i] == '0'
        }),
{
    reveal_strlit("-");
    let all = degrees_text(x);
    let body = fixed_text(x, 0);
    assert(all.skip(all.len() - body.len() + 1) =~= body.skip(1));
}

} // verus!
