//! Text: the string operations that the rest of the library is stated over.

use crate::decimal;
use vstd::prelude::*;

verus! {

/// The text of an optional string.
pub open spec fn opt(s: Option<String>) -> Option<Seq<char>> {
    match s {
        Some(t) => Some(t@),
        None => None,
    }
}

/// The texts of strings.
pub open spec fn all(v: Seq<String>) -> Seq<Seq<char>> {
    Seq::new(v.len(), |i: int| v[i]@)
}

/// Whether two texts are the same.
pub fn same(a: &str, b: &str) -> (r: bool)
    ensures
        r == (a@ == b@),
{
    let x = a.to_owned();
    let y = b.to_owned();
    x == y
}

/// The characters of a text.
pub fn chars_of(s: &str) -> (v: Vec<char>)
    ensures
        v@ == s@,
{
    let mut v: Vec<char> = Vec::new();
    for c in iter: s.chars()
        invariant
            iter.seq() == s@,
            v@ == s@.take(iter.index()),
    {
        v.push(c);
        assert(s@.take(iter.index() + 1) =~= s@.take(iter.index()).push(c));
    }
    assert(s@.take(s@.len() as int) =~= s@);
    v
}

/// The text of the characters from `from` up to `to`.
pub fn text_of(v: &Vec<char>, from: usize, to: usize) -> (s: String)
    requires
        from <= to <= v.len(),
    ensures
        s@ == v@.subrange(from as int, to as int),
{
    let mut s = String::new();
    let mut i: usize = from;
    while i < to
        invariant
            from <= i <= to <= v.len(),
            s@ == v@.subrange(from as int, i as int),
        decreases to - i,
    {
        s.push(v[i]);
        i = i + 1;
        assert(s@ =~= v@.subrange(from as int, i as int));
    }
    s
}

/// Whether Unicode counts a character as white space.
pub open spec fn white(c: char) -> bool {
    let u = c as u32;
    ||| 0x9 <= u <= 0xd
    ||| u == 0x20
    ||| u == 0x85
    ||| u == 0xa0
    ||| u == 0x1680
    ||| 0x2000 <= u <= 0x200a
    ||| u == 0x2028
    ||| u == 0x2029
    ||| u == 0x202f
    ||| u == 0x205f
    ||| u == 0x3000
}

/// `s` without white space in front.
pub open spec fn trimmed_front(s: Seq<char>) -> Seq<char>
    decreases s.len(),
{
    if s.len() > 0 && white(s[0]) {
        trimmed_front(s.drop_first())
    } else {
        s
    }
}

/// `s` without white space behind.
pub open spec fn trimmed_back(s: Seq<char>) -> Seq<char>
    decreases s.len(),
{
    if s.len() > 0 && white(s.last()) {
        trimmed_back(s.drop_last())
    } else {
        s
    }
}

/// `s` without white space at either end.
pub open spec fn trimmed(s: Seq<char>) -> Seq<char> {
    trimmed_back(trimmed_front(s))
}

fn is_white(c: char) -> (r: bool)
    ensures
        r == white(c),
{
    let u: u32 = c as u32;
    (0x9 <= u && u <= 0xd) || u == 0x20 || u == 0x85 || u == 0xa0 || u == 0x1680 || (0x2000 <= u
        && u <= 0x200a) || u == 0x2028 || u == 0x2029 || u == 0x202f || u == 0x205f || u == 0x3000
}

/// `s` without white space at either end.
pub fn trim(s: &str) -> (r: String)
    ensures
        r@ == trimmed(s@),
{
    let v = chars_of(s);
    let n: usize = v.len();
    let mut i: usize = 0;
    assert(v@.subrange(0, n as int) =~= v@);
    while i < n && is_white(v[i])
        invariant
            i <= n == v.len(),
            trimmed_front(v@.subrange(i as int, n as int)) == trimmed_front(v@),
        decreases n - i,
    {
        assert(v@.subrange(i as int, n as int).drop_first() =~= v@.subrange(i + 1, n as int));
        i = i + 1;
    }
    assert(trimmed_front(v@) == v@.subrange(i as int, n as int));
    let mut j: usize = n;
    while j > i && is_white(v[j - 1])
        invariant
            i <= j <= n == v.len(),
            trimmed_back(v@.subrange(i as int, j as int)) == trimmed_back(
                v@.subrange(i as int, n as int),
            ),
        decreases j,
    {
        assert(v@.subrange(i as int, j as int).drop_last() =~= v@.subrange(i as int, j - 1));
        j = j - 1;
    }
    text_of(&v, i, j)
}

/// `s` without any `c` behind.
pub open spec fn without_trailing(s: Seq<char>, c: char) -> Seq<char>
    decreases s.len(),
{
    if s.len() > 0 && s.last() == c {
        without_trailing(s.drop_last(), c)
    } else {
        s
    }
}

/// `s` without any `c` in front.
pub open spec fn without_leading(s: Seq<char>, c: char) -> Seq<char>
    decreases s.len(),
{
    if s.len() > 0 && s[0] == c {
        without_leading(s.drop_first(), c)
    } else {
        s
    }
}

/// `s` without any `c` behind.
pub fn trim_end_char(s: &str, c: char) -> (r: String)
    ensures
        r@ == without_trailing(s@, c),
{
    let v = chars_of(s);
    let mut j: usize = v.len();
    assert(v@.subrange(0, j as int) =~= v@);
    while j > 0 && v[j - 1] == c
        invariant
            j <= v.len(),
            without_trailing(v@.subrange(0, j as int), c) == without_trailing(v@, c),
        decreases j,
    {
        assert(v@.subrange(0, j as int).drop_last() =~= v@.subrange(0, j - 1));
        j = j - 1;
    }
    text_of(&v, 0, j)
}

/// `s` without any `c` in front.
pub fn trim_start_char(s: &str, c: char) -> (r: String)
    ensures
        r@ == without_leading(s@, c),
{
    let v = chars_of(s);
    let n: usize = v.len();
    let mut i: usize = 0;
    assert(v@.subrange(0, n as int) =~= v@);
    while i < n && v[i] == c
        invariant
            i <= n == v.len(),
            without_leading(v@.subrange(i as int, n as int), c) == without_leading(v@, c),
        decreases n - i,
    {
        assert(v@.subrange(i as int, n as int).drop_first() =~= v@.subrange(i + 1, n as int));
        i = i + 1;
    }
    text_of(&v, i, n)
}

/// The lower-case letter of an ASCII upper-case one, by code.
pub open spec fn folded(c: char) -> int {
    if 'A' <= c <= 'Z' {
        c as u32 + 32
    } else {
        c as u32 as int
    }
}

/// Whether two texts differ at most in the case of ASCII letters.
pub open spec fn same_ignoring_case(a: Seq<char>, b: Seq<char>) -> bool {
    a.len() == b.len() && forall|i: int| 0 <= i < a.len() ==> folded(#[trigger] a[i]) == folded(b[i])
}

fn fold(c: char) -> (r: u32)
    ensures
        r == folded(c),
{
    let u: u32 = c as u32;
    if 0x41 <= u && u <= 0x5a {
        u + 32
    } else {
        u
    }
}

/// Whether two texts differ at most in the case of ASCII letters.
pub fn eq_ignore_ascii_case(a: &str, b: &str) -> (r: bool)
    ensures
        r == same_ignoring_case(a@, b@),
{
    let x = chars_of(a);
    let y = chars_of(b);
    if x.len() != y.len() {
        return false;
    }
    let mut i: usize = 0;
    while i < x.len()
        invariant
            i <= x.len(),
            x.len() == y.len(),
            x@ == a@,
            y@ == b@,
            forall|k: int| 0 <= k < i ==> folded(#[trigger] x@[k]) == folded(y@[k]),
        decreases x.len() - i,
    {
        if fold(x[i]) != fold(y[i]) {
            assert(folded(a@[i as int]) != folded(b@[i as int]));
            return false;
        }
        i = i + 1;
    }
    true
}

/// The texts of `parts` with `sep` between each two.
pub open spec fn joined(parts: Seq<Seq<char>>, sep: Seq<char>) -> Seq<char>
    decreases parts.len(),
{
    if parts.len() == 0 {
        Seq::empty()
    } else if parts.len() == 1 {
        parts[0]
    } else {
        joined(parts.drop_last(), sep) + sep + parts.last()
    }
}

/// The strings with `sep` between each two.
pub fn join(parts: &Vec<String>, sep: &str) -> (r: String)
    ensures
        r@ == joined(all(parts@), sep@),
{
    let mut s = String::new();
    let mut i: usize = 0;
    assert(all(parts@).take(0) =~= Seq::<Seq<char>>::empty());
    while i < parts.len()
        invariant
            i <= parts.len(),
            s@ == joined(all(parts@).take(i as int), sep@),
        decreases parts.len() - i,
    {
        let ghost next = all(parts@).take(i + 1);
        assert(next.drop_last() =~= all(parts@).take(i as int));
        assert(next.last() == parts@[i as int]@);
        if i > 0 {
            s.append(sep);
            s.append(parts[i].as_str());
        } else {
            s.append(parts[i].as_str());
            assert(s@ =~= next[0]);
        }
        i = i + 1;
    }
    assert(all(parts@).take(parts.len() as int) =~= all(parts@));
    s
}

/// A whole number in decimal, with a minus sign where it is negative.
pub open spec fn int_text(n: int) -> Seq<char> {
    if n < 0 {
        "-"@ + decimal::dec((-n) as nat)
    } else {
        decimal::dec(n as nat)
    }
}

/// A whole number in decimal.
pub fn int_to_text(n: i64) -> (r: String)
    ensures
        r@ == int_text(n as int),
{
    if n < 0 {
        let m: u128 = (-(n as i128)) as u128;
        let mut s = "-".to_owned();
        s.append(decimal::decimal(m).as_str());
        s
    } else {
        decimal::decimal(n as u128)
    }
}

/// Two texts in a row.
pub fn concat(a: &str, b: &str) -> (r: String)
    ensures
        r@ == a@ + b@,
{
    let mut s = a.to_owned();
    s.append(b);
    s
}

/// Three texts in a row.
pub fn concat3(a: &str, b: &str, c: &str) -> (r: String)
    ensures
        r@ == a@ + b@ + c@,
{
    let mut s = a.to_owned();
    s.append(b);
    s.append(c);
    s
}

/// The parts of a text between the occurrences of `c`; a text without it is one part.
pub open spec fn parts(s: Seq<char>, c: char) -> Seq<Seq<char>>
    decreases s.len(),
{
    if s.len() == 0 {
        seq![Seq::empty()]
    } else {
        let before = parts(s.drop_last(), c);
        if s.last() == c {
            before.push(Seq::empty())
        } else {
            before.update(before.len() - 1, before.last().push(s.last()))
        }
    }
}

/// The parts of a text between the occurrences of `c`.
pub fn split(s: &str, c: char) -> (r: Vec<String>)
    ensures
        all(r@) == parts(s@, c),
{
    let v = chars_of(s);
    let mut done: Vec<String> = Vec::new();
    let mut part = String::new();
    let mut i: usize = 0;
    assert(v@.take(0) =~= Seq::<char>::empty());
    assert(all(done@).push(part@) =~= parts(v@.take(0), c));
    while i < v.len()
        invariant
            i <= v.len(),
            v@ == s@,
            all(done@).push(part@) == parts(v@.take(i as int), c),
        decreases v.len() - i,
    {
        let ghost before = all(done@);
        let ghost word = part@;
        proof {
            let next = v@.take(i + 1);
            assert(next.drop_last() =~= v@.take(i as int));
            assert(next.last() == v@[i as int]);
        }
        if v[i] == c {
            done.push(part);
            part = String::new();
            assert(all(done@) =~= before.push(word));
        } else {
            part.push(v[i]);
            assert(before.push(word).update(before.len() as int, word.push(v@[i as int]))
                =~= before.push(part@));
        }
        i = i + 1;
    }
    assert(v@.take(v.len() as int) =~= v@);
    let ghost before = all(done@);
    let ghost word = part@;
    done.push(part);
    assert(all(done@) =~= before.push(word));
    done
}

/// Where `c` first occurs; the length where it does not.
pub open spec fn first_index(s: Seq<char>, c: char) -> int
    decreases s.len(),
{
    if s.len() == 0 || s[0] == c {
        0
    } else {
        1 + first_index(s.drop_first(), c)
    }
}

/// The texts before and after the first `c`; `None` where it does not occur.
pub open spec fn halves(s: Seq<char>, c: char) -> Option<(Seq<char>, Seq<char>)> {
    let k = first_index(s, c);
    if k < s.len() {
        Some((s.take(k), s.skip(k + 1)))
    } else {
        None
    }
}

/// The texts before and after the first `c`.
pub fn split_once(s: &str, c: char) -> (r: Option<(String, String)>)
    ensures
        match r {
            Some((a, b)) => halves(s@, c) == Some((a@, b@)),
            None => halves(s@, c) is None,
        },
{
    let v = chars_of(s);
    let mut i: usize = 0;
    assert(v@.skip(0) =~= v@);
    while i < v.len() && v[i] != c
        invariant
            i <= v.len(),
            v@ == s@,
            first_index(s@, c) == i + first_index(v@.skip(i as int), c),
        decreases v.len() - i,
    {
        assert(v@.skip(i as int).drop_first() =~= v@.skip(i + 1));
        i = i + 1;
    }
    if i == v.len() {
        return None;
    }
    assert(s@.take(i as int) =~= v@.subrange(0, i as int));
    assert(s@.skip(i + 1) =~= v@.subrange(i + 1, v.len() as int));
    Some((text_of(&v, 0, i), text_of(&v, i + 1, v.len())))
}

/// Whether a character is a decimal digit.
pub open spec fn is_digit(c: char) -> bool {
    '0' <= c <= '9'
}

/// The number that decimal digits stand for.
pub open spec fn digits_value(s: Seq<char>) -> nat
    decreases s.len(),
{
    if s.len() == 0 {
        0
    } else {
        (10 * digits_value(s.drop_last()) + (s.last() as u32 - '0' as u32)) as nat
    }
}

/// The digits of a number that may have a plus sign in front.
pub open spec fn unsigned(s: Seq<char>) -> Seq<char> {
    if s.len() > 0 && s[0] == '+' {
        s.drop_first()
    } else {
        s
    }
}

/// The whole number that a text reads as, where it is one of 32 bits: digits alone, behind a
/// plus sign at most.
pub open spec fn number_of(s: Seq<char>) -> Option<u32> {
    let digits = unsigned(s);
    if digits.len() > 0 && (forall|i: int| 0 <= i < digits.len() ==> is_digit(#[trigger] digits[i]))
        && digits_value(digits) <= u32::MAX {
        Some(digits_value(digits) as u32)
    } else {
        None
    }
}

fn digit_of(c: char) -> (r: Option<u64>)
    ensures
        r is Some <==> is_digit(c),
        r is Some ==> r->0 == c as u32 - '0' as u32,
        r is Some ==> r->0 <= 9,
{
    let u: u32 = c as u32;
    if 0x30 <= u && u <= 0x39 {
        Some((u - 0x30) as u64)
    } else {
        None
    }
}

proof fn lemma_digits_value_grows(s: Seq<char>, n: int)
    requires
        0 <= n <= s.len(),
        forall|i: int| 0 <= i < s.len() ==> is_digit(#[trigger] s[i]),
    ensures
        digits_value(s.take(n)) <= digits_value(s),
    decreases s.len() - n,
{
    if n < s.len() {
        lemma_digits_value_grows(s, n + 1);
        assert(s.take(n + 1).drop_last() =~= s.take(n));
        assert(is_digit(s[n]));
        assert(s.take(n + 1).last() == s[n]);
    } else {
        assert(s.take(n) =~= s);
    }
}

/// The whole number that a text reads as, where it is one of 32 bits.
pub fn parse_u32(s: &str) -> (r: Option<u32>)
    ensures
        r == number_of(s@),
{
    let v = chars_of(s);
    let start: usize = if v.len() > 0 && v[0] == '+' {
        1
    } else {
        0
    };
    let ghost digits = unsigned(s@);
    assert(digits =~= v@.skip(start as int));
    if start == v.len() {
        return None;
    }
    let mut total: u64 = 0;
    let mut i: usize = start;
    assert(digits.take(0) =~= Seq::<char>::empty());
    while i < v.len()
        invariant
            start <= i <= v.len(),
            start <= 1,
            v@ == s@,
            digits == unsigned(s@),
            digits == v@.skip(start as int),
            digits.len() > 0,
            forall|k: int| 0 <= k < i - start ==> is_digit(#[trigger] digits[k]),
            total == digits_value(digits.take(i - start)),
            total <= u32::MAX,
        decreases v.len() - i,
    {
        let c = v[i];
        assert(c == digits[i - start]);
        let d: u64 = match digit_of(c) {
            Some(d) => d,
            None => return None,
        };
        total = total * 10 + d;
        proof {
            assert(is_digit(digits[i - start]));
            let next = digits.take(i - start + 1);
            assert(next.drop_last() =~= digits.take(i - start));
            assert(next.last() == c);
        }
        i = i + 1;
        if total > 0xffff_ffff {
            proof {
                if forall|k: int| 0 <= k < digits.len() ==> is_digit(#[trigger] digits[k]) {
                    lemma_digits_value_grows(digits, i - start);
                }
            }
            return None;
        }
    }
    assert(digits.take(digits.len() as int) =~= digits);
    Some(total as u32)
}

/// A text in quotes and with escapes, as `str`'s `Debug` writes it.
pub uninterp spec fn debug_text(s: Seq<char>) -> Seq<char>;

/// `str`'s `Debug`, through `format!`: the text in quotes, with whatever is not printable
/// escaped. Which characters are escaped, and how, follows Unicode tables and is left unsaid;
/// the result depends on the text alone.
#[verifier::external_body]
pub(crate) fn quoted(s: &str) -> (r: String)
    ensures
        r@ == debug_text(s@),
{
    format!("{s:?}")
}

proof fn lemma_trimmed_front(s: Seq<char>)
    ensures
        trimmed_front(s).len() <= s.len(),
        trimmed_front(s) == s.skip(s.len() - trimmed_front(s).len()),
        forall|i: int| 0 <= i < s.len() - trimmed_front(s).len() ==> white(#[trigger] s[i]),
        trimmed_front(s).len() > 0 ==> !white(trimmed_front(s)[0]),
    decreases s.len(),
{
    if s.len() > 0 && white(s[0]) {
        let rest = s.drop_first();
        lemma_trimmed_front(rest);
        assert(trimmed_front(s) =~= s.skip(s.len() - trimmed_front(s).len()));
        assert forall|i: int| 0 <= i < s.len() - trimmed_front(s).len() implies white(
            #[trigger] s[i],
        ) by {
            if i > 0 {
                assert(s[i] == rest[i - 1]);
            }
        }
    } else {
        assert(s.skip(0) =~= s);
    }
}

proof fn lemma_trimmed_back(s: Seq<char>)
    ensures
        trimmed_back(s).len() <= s.len(),
        trimmed_back(s) == s.take(trimmed_back(s).len() as int),
        forall|i: int| trimmed_back(s).len() <= i < s.len() ==> white(#[trigger] s[i]),
        trimmed_back(s).len() > 0 ==> !white(trimmed_back(s).last()),
    decreases s.len(),
{
    if s.len() > 0 && white(s.last()) {
        let rest = s.drop_last();
        lemma_trimmed_back(rest);
        assert(trimmed_back(s) =~= s.take(trimmed_back(s).len() as int));
        assert forall|i: int| trimmed_back(s).len() <= i < s.len() implies white(
            #[trigger] s[i],
        ) by {
            if i < rest.len() {
                assert(s[i] == rest[i]);
            }
        }
    } else {
        assert(s.take(s.len() as int) =~= s);
    }
}

/// Trimming takes white space away from both ends and nothing else: what is left is a piece of
/// the text with only white space around it, and neither begins nor ends with any.
pub proof fn law_trimming_takes_white_space_alone(s: Seq<char>) -> (at: (int, int))
    ensures
        0 <= at.0 <= at.1 <= s.len(),
        trimmed(s) == s.subrange(at.0, at.1),
        forall|i: int| 0 <= i < at.0 || at.1 <= i < s.len() ==> white(#[trigger] s[i]),
        at.0 < at.1 ==> !white(s[at.0]) && !white(s[at.1 - 1]),
{
    let front = trimmed_front(s);
    lemma_trimmed_front(s);
    lemma_trimmed_back(front);
    let from = s.len() - front.len();
    let to = from + trimmed(s).len();
    assert(trimmed(s) =~= s.subrange(from, to));
    assert forall|i: int| 0 <= i < from || to <= i < s.len() implies white(#[trigger] s[i]) by {
        if i >= to {
            assert(front[i - from] == s[i]);
        }
    }
    if from < to {
        assert(trimmed(s)[0] == front[0]);
        assert(trimmed(s).last() == s[to - 1]);
    }
    (from, to)
}

/// Blanks, tabs and line ends are white space; what is printed in ASCII is not.
pub proof fn law_white_space_is_what_is_not_seen(c: char)
    ensures
        c == ' ' || c == '\t' || c == '\n' || c == '\r' ==> white(c),
        0x21 <= c as u32 <= 0x7e ==> !white(c),
{
}

/// Whether two characters are one, or the two cases of one ASCII letter.
pub open spec fn same_letter(x: char, y: char) -> bool {
    ||| x == y
    ||| 'A' <= x <= 'Z' && y as u32 == x as u32 + 32
    ||| 'A' <= y <= 'Z' && x as u32 == y as u32 + 32
}

proof fn lemma_folded(x: char, y: char)
    ensures
        folded(x) == folded(y) <==> same_letter(x, y),
{
}

/// Two texts are the same but for case where, place by place, they have the same character or
/// the two cases of one ASCII letter.
pub proof fn law_case_is_that_of_ascii_letters(a: Seq<char>, b: Seq<char>)
    ensures
        same_ignoring_case(a, b) <==> a.len() == b.len() && forall|i: int|
            0 <= i < a.len() ==> same_letter(#[trigger] a[i], b[i]),
{
    assert forall|i: int| 0 <= i < a.len() && a.len() == b.len() implies (folded(#[trigger] a[i])
        == folded(b[i]) <==> same_letter(a[i], b[i])) by {
        lemma_folded(a[i], b[i]);
    }
}

proof fn lemma_no_trailing(s: Seq<char>, c: char)
    ensures
        without_trailing(s, c).len() <= s.len(),
        without_trailing(s, c) == s.take(without_trailing(s, c).len() as int),
        without_trailing(s, c).len() > 0 ==> without_trailing(s, c).last() != c,
        forall|i: int| without_trailing(s, c).len() <= i < s.len() ==> #[trigger] s[i] == c,
    decreases s.len(),
{
    if s.len() > 0 && s.last() == c {
        let rest = s.drop_last();
        lemma_no_trailing(rest, c);
        assert(without_trailing(s, c) =~= s.take(without_trailing(s, c).len() as int));
        assert forall|i: int| without_trailing(s, c).len() <= i < s.len() implies #[trigger] s[i]
            == c by {
            if i < rest.len() {
                assert(s[i] == rest[i]);
            }
        }
    } else {
        assert(s.take(s.len() as int) =~= s);
    }
}

/// Taking a character away from the end takes all of it and nothing else.
pub proof fn law_only_the_trailing_character_goes(s: Seq<char>, c: char)
    ensures
        without_trailing(s, c).len() <= s.len(),
        without_trailing(s, c) == s.take(without_trailing(s, c).len() as int),
        without_trailing(s, c).len() > 0 ==> without_trailing(s, c).last() != c,
        forall|i: int| without_trailing(s, c).len() <= i < s.len() ==> #[trigger] s[i] == c,
{
    lemma_no_trailing(s, c);
}

proof fn lemma_no_leading(s: Seq<char>, c: char)
    ensures
        without_leading(s, c).len() <= s.len(),
        without_leading(s, c) == s.skip(s.len() - without_leading(s, c).len()),
        without_leading(s, c).len() > 0 ==> without_leading(s, c)[0] != c,
        forall|i: int| 0 <= i < s.len() - without_leading(s, c).len() ==> #[trigger] s[i] == c,
    decreases s.len(),
{
    if s.len() > 0 && s[0] == c {
        let rest = s.drop_first();
        lemma_no_leading(rest, c);
        assert(without_leading(s, c) =~= s.skip(s.len() - without_leading(s, c).len()));
        assert forall|i: int| 0 <= i < s.len() - without_leading(s, c).len() implies #[trigger] s[i]
            == c by {
            if i > 0 {
                assert(s[i] == rest[i - 1]);
            }
        }
    } else {
        assert(s.skip(0) =~= s);
    }
}

/// Taking a character away from the front takes all of it and nothing else.
pub proof fn law_only_the_leading_character_goes(s: Seq<char>, c: char)
    ensures
        without_leading(s, c).len() <= s.len(),
        without_leading(s, c) == s.skip(s.len() - without_leading(s, c).len()),
        without_leading(s, c).len() > 0 ==> without_leading(s, c)[0] != c,
        forall|i: int| 0 <= i < s.len() - without_leading(s, c).len() ==> #[trigger] s[i] == c,
{
    lemma_no_leading(s, c);
}

/// Splitting at a character parts a text there: no part holds it, and joined by it the parts
/// are the text again.
pub proof fn law_parts_make_the_text(s: Seq<char>, c: char)
    ensures
        parts(s, c).len() > 0,
        forall|k: int| 0 <= k < parts(s, c).len() ==> !(#[trigger] parts(s, c)[k]).contains(c),
        joined(parts(s, c), seq![c]) == s,
    decreases s.len(),
{
    if s.len() == 0 {
        assert(joined(parts(s, c), seq![c]) =~= s);
    } else {
        let rest = s.drop_last();
        let before = parts(rest, c);
        let all = parts(s, c);
        law_parts_make_the_text(rest, c);
        if s.last() == c {
            assert(all.drop_last() =~= before);
            assert(joined(all, seq![c]) =~= s);
        } else {
            let last = before.last();
            assert forall|k: int| 0 <= k < all.len() implies !(#[trigger] all[k]).contains(c) by {
                if k < all.len() - 1 {
                    assert(all[k] == before[k]);
                } else {
                    assert(!before[before.len() - 1].contains(c));
                    assert forall|i: int| 0 <= i < all[k].len() implies all[k][i] != c by {
                        if i < last.len() {
                            assert(last[i] != c) by {
                                assert(!last.contains(c));
                            }
                        }
                    }
                }
            }
            assert(all.drop_last() =~= before.drop_last());
            assert(s =~= rest.push(s.last()));
            if before.len() == 1 {
                assert(joined(before, seq![c]) == last);
                assert(joined(all, seq![c]) =~= last.push(s.last()));
            } else {
                let front = joined(before.drop_last(), seq![c]) + seq![c];
                assert(joined(before, seq![c]) == front + last);
                assert(joined(all, seq![c]) == front + last.push(s.last()));
                assert(front + last.push(s.last()) =~= (front + last).push(s.last()));
            }
        }
    }
}

proof fn lemma_first_index(s: Seq<char>, c: char)
    ensures
        0 <= first_index(s, c) <= s.len(),
        first_index(s, c) < s.len() ==> s[first_index(s, c)] == c,
        forall|i: int| 0 <= i < first_index(s, c) ==> #[trigger] s[i] != c,
    decreases s.len(),
{
    if s.len() > 0 && s[0] != c {
        let rest = s.drop_first();
        lemma_first_index(rest, c);
        assert forall|i: int| 0 <= i < first_index(s, c) implies #[trigger] s[i] != c by {
            if i > 0 {
                assert(s[i] == rest[i - 1]);
            }
        }
    }
}

/// Halving at a character parts a text at its first occurrence: the first half does not hold
/// it, and with it between them the halves are the text again; a text without it has none.
pub proof fn law_halves_make_the_text(s: Seq<char>, c: char)
    ensures
        halves(s, c) is Some <==> s.contains(c),
        halves(s, c) is Some ==> !(halves(s, c)->0).0.contains(c) && (halves(s, c)->0).0 + seq![c]
            + (halves(s, c)->0).1 == s,
{
    lemma_first_index(s, c);
    let k = first_index(s, c);
    if k < s.len() {
        assert(s.contains(c));
        assert(s.take(k) + seq![c] + s.skip(k + 1) =~= s);
        assert forall|i: int| 0 <= i < s.take(k).len() implies s.take(k)[i] != c by {
            assert(s[i] != c);
        }
    } else {
        assert forall|i: int| 0 <= i < s.len() implies s[i] != c by {
        }
    }
}

/// Each digit behind a number makes it ten times as much and the digit more.
pub proof fn law_digits_are_decimal(s: Seq<char>, c: char)
    requires
        is_digit(c),
    ensures
        digits_value(s.push(c)) == 10 * digits_value(s) + (c as u32 - '0' as u32),
        digits_value(Seq::empty()) == 0,
{
    assert(s.push(c).drop_last() =~= s);
}

/// A text reads as a number of 32 bits exactly where it is digits, with a plus sign in front at
/// most, whose value has no more than 32 bits; it then reads as that value.
pub proof fn law_numbers_read_as_their_digits(digits: Seq<char>)
    requires
        digits.len() > 0,
        forall|i: int| 0 <= i < digits.len() ==> '0' <= #[trigger] digits[i] <= '9',
    ensures
        number_of(digits) == number_of(seq!['+'] + digits),
        number_of(digits) is Some <==> digits_value(digits) <= 0xffff_ffff,
        number_of(digits) is Some ==> number_of(digits)->0 == digits_value(digits),
{
    assert((seq!['+'] + digits).drop_first() =~= digits);
    assert('0' <= digits[0]);
}

/// Nothing else reads as a number.
pub proof fn law_what_is_no_digit_is_no_number(s: Seq<char>, i: int)
    ensures
        s.len() == 0 ==> number_of(s) is None,
        0 < i < s.len() && !('0' <= s[i] <= '9') ==> number_of(s) is None,
        s.len() > 0 && s[0] != '+' && !('0' <= s[0] <= '9') ==> number_of(s) is None,
{
    if 0 < i < s.len() && !('0' <= s[i] <= '9') {
        if s[0] == '+' {
            assert(unsigned(s)[i - 1] == s[i]);
        } else {
            assert(unsigned(s)[i] == s[i]);
        }
    }
    if s.len() > 0 && s[0] != '+' {
        assert(unsigned(s)[0] == s[0]);
    }
}

/// A whole number's text is its digits, with a minus sign in front where it is below zero: a
/// number and its opposite differ in the sign alone.
pub proof fn law_sign_stands_in_front(n: int)
    requires
        n > 0,
    ensures
        int_text(-n) == "-"@ + int_text(n),
        int_text(n) == decimal::dec(n as nat),
{
}

/// Joining puts the separator between each two texts and nowhere else.
pub proof fn law_joining_puts_the_separator_between(
    parts: Seq<Seq<char>>,
    more: Seq<char>,
    sep: Seq<char>,
)
    ensures
        joined(Seq::empty(), sep).len() == 0,
        joined(seq![more], sep) == more,
        parts.len() > 0 ==> joined(parts.push(more), sep) == joined(parts, sep) + sep + more,
{
    assert(parts.push(more).drop_last() =~= parts);
}

/// The texts of strings are theirs, in their order; that of a missing string is missing.
pub proof fn law_texts_are_those_of_the_strings(v: Seq<String>, i: int, s: String)
    requires
        0 <= i < v.len(),
    ensures
        all(v).len() == v.len(),
        all(v)[i] == v[i]@,
        opt(Some(s)) == Some(s@),
        opt(None) is None,
{
}

/// A text without the character is one part, and with one such character it has two.
pub proof fn law_one_character_makes_two_parts(a: Seq<char>, b: Seq<char>, c: char)
    requires
        !a.contains(c),
        !b.contains(c),
    ensures
        parts(a, c) == seq![a],
        parts(a + seq![c] + b, c) == seq![a, b],
    decreases a.len() + b.len(),
{
    if a.len() > 0 {
        let t = a.drop_last();
        assert(!t.contains(c)) by {
            if t.contains(c) {
                let i = choose|i: int| 0 <= i < t.len() && t[i] == c;
                assert(a[i] == c);
            }
        }
        law_one_character_makes_two_parts(t, Seq::empty(), c);
        assert(a.last() != c) by {
            assert(a[a.len() - 1] == a.last());
        }
        assert(t.push(a.last()) =~= a);
        assert(parts(a, c) =~= seq![a]);
    } else {
        assert(a =~= Seq::empty());
        assert(parts(a, c) =~= seq![a]);
    }
    let s = a + seq![c] + b;
    if b.len() == 0 {
        assert(b =~= Seq::empty());
        assert(s.drop_last() =~= a);
        assert(parts(s, c) =~= seq![a, b]);
    } else {
        let t = b.drop_last();
        assert(!t.contains(c)) by {
            if t.contains(c) {
                let i = choose|i: int| 0 <= i < t.len() && t[i] == c;
                assert(b[i] == c);
            }
        }
        law_one_character_makes_two_parts(a, t, c);
        assert(s.drop_last() =~= a + seq![c] + t);
        assert(s.last() == b[b.len() - 1]);
        assert(b[b.len() - 1] != c);
        assert(t.push(b.last()) =~= b);
        assert(parts(s, c) =~= seq![a, b]);
    }
}

/// Only a number below zero has a sign, and it is followed by the digits of its opposite.
pub proof fn law_only_negative_numbers_have_a_sign(n: int)
    requires
        n >= 0,
    ensures
        int_text(n) == decimal::dec(n as nat),
        n > 0 ==> int_text(-n) == "-"@ + int_text(n),
{
}

} // verus!
