//! Numbers, lengths of time and texts, held against what std makes of them.

use flights::decimal::{align_left, align_right, decimal, degrees, fixed, signed};
use flights::number::{whole, Number};
use flights::order::sort_indices;
use flights::span::{Moment, Span};
use flights::text;
use flights::waybar::bar::pango_escape;

fn num(x: f64) -> Number {
    Number { bits: x.to_bits() }
}

fn samples() -> Vec<f64> {
    let mut all = vec![
        0.0,
        -0.0,
        0.5,
        -0.5,
        1.5,
        2.5,
        0.05,
        0.15,
        0.25,
        1.0,
        9.995,
        99.95,
        -0.04,
        359.5,
        359.4999,
        1e-9,
        5e-324,
        1.7976931348623157e308,
        1e22,
        123456789.987654321,
        f64::NAN,
        f64::INFINITY,
        f64::NEG_INFINITY,
        -1234.5678,
    ];
    let mut x: u64 = 0x9e37_79b9_7f4a_7c15;
    for _ in 0..400 {
        x ^= x << 13;
        x ^= x >> 7;
        x ^= x << 17;
        all.push(f64::from_bits(x));
        all.push((x >> 40) as f64 / 1000.0 - 4000.0);
    }
    all
}

#[test]
fn decimals_are_those_of_std() {
    for x in samples() {
        assert_eq!(fixed(&num(x), 0), format!("{x:.0}"), "for {x:?}");
        assert_eq!(fixed(&num(x), 1), format!("{x:.1}"), "for {x:?}");
        assert_eq!(fixed(&num(x), 3), format!("{x:.3}"), "for {x:?}");
        assert_eq!(fixed(&num(x), 6), format!("{x:.6}"), "for {x:?}");
        assert_eq!(signed(&num(x), 0), format!("{x:+.0}"), "for {x:?}");
        assert_eq!(degrees(&num(x)), format!("{x:03.0}"), "for {x:?}");
    }
    assert_eq!(decimal(0), "0");
    assert_eq!(decimal(u128::MAX), u128::MAX.to_string());
}

#[test]
fn order_is_that_of_std() {
    let all = samples();
    for (i, a) in all.iter().enumerate() {
        let b = all[(i * 7 + 3) % all.len()];
        assert_eq!(num(*a).is_below(&num(b)), *a < b);
        assert_eq!(num(*a).is_at_most(&num(b)), *a <= b);
        assert_eq!(num(*a).key() < num(b).key(), a.total_cmp(&b).is_lt());
        for n in [-180, -1, 0, 1, 30, 650] {
            assert_eq!(num(*a).is_below_int(n), *a < n as f64, "{a:?} < {n}");
            assert_eq!(num(*a).is_above_int(n), *a > n as f64, "{a:?} > {n}");
            assert_eq!(num(*a).is_at_least_int(n), *a >= n as f64, "{a:?} >= {n}");
            assert_eq!(num(*a).is_at_most_int(n), *a <= n as f64, "{a:?} <= {n}");
        }
        assert_eq!(num(*a).is_nan(), a.is_nan());
        assert_eq!(num(*a).is_finite(), a.is_finite());
    }
    for n in [i32::MIN, -650, -1, 0, 1, 7, 100, i32::MAX] {
        assert_eq!(f64::from_bits(whole(n).bits), n as f64);
    }
}

#[test]
fn sorting_keeps_equal_keys_in_order() {
    assert_eq!(sort_indices(&vec![3, 1, 3, 2, 1]), vec![1, 4, 3, 0, 2]);
    assert_eq!(sort_indices(&vec![]), Vec::<usize>::new());
}

#[test]
fn seconds_become_the_nearest_nanosecond() {
    for x in samples() {
        let std = std::time::Duration::try_from_secs_f64(x).ok().map(|d| d.as_nanos());
        // A tiny negative number rounds to nothing in std; it is no length of time here.
        if x < 0.0 {
            assert_eq!(Span::from_seconds(&num(x)), None);
        } else if let Some(nanos) = std {
            assert_eq!(Span::from_seconds(&num(x)).map(|s| s.nanos), Some(nanos), "for {x:?}");
        } else {
            assert_eq!(Span::from_seconds(&num(x)).map(|s| s.nanos), None, "for {x:?}");
        }
    }
    assert_eq!(Moment { nanos: 5 }.since(&Moment { nanos: 9 }), Span { nanos: 0 });
    assert_eq!(Moment { nanos: 9 }.since(&Moment { nanos: 5 }), Span { nanos: 4 });
    let longest = Span::from_secs(u64::MAX);
    assert_eq!(longest.saturating_mul(2).as_secs(), u64::MAX as u128);
    assert_eq!(Span::from_secs(7).saturating_mul(3), Span::from_secs(21));
    assert_eq!(Span::from_secs(7).saturating_mul(0), Span::from_secs(0));
}

#[test]
fn texts_are_cut_as_std_cuts_them() {
    for s in ["", " ", "SWA157  ", "\t x y \u{a0}", "\u{2003}z", "plain"] {
        assert_eq!(text::trim(s), s.trim());
    }
    assert_eq!(text::trim_end_char("http://x//", '/'), "http://x");
    assert_eq!(text::trim_start_char("??a?", '?'), "a?");
    assert!(text::eq_ignore_ascii_case("GrOuNd", "ground"));
    assert!(!text::eq_ignore_ascii_case("grounds", "ground"));
    assert!(!text::eq_ignore_ascii_case("ä", "Ä"));
    assert_eq!(text::split("a&b&&", '&'), vec!["a", "b", "", ""]);
    assert_eq!(text::split("", '&'), vec![""]);
    assert_eq!(text::split_once("k=v=w", '='), Some(("k".to_string(), "v=w".to_string())));
    assert_eq!(text::split_once("flag", '='), None);
    assert_eq!(text::join(&vec!["a".into(), "b".into()], ", "), "a, b");
    assert_eq!(text::int_to_text(i64::MIN), i64::MIN.to_string());
    for s in ["", "+", "+7", "-1", "007", "4294967295", "4294967296", "12a", "99999999999999"] {
        assert_eq!(text::parse_u32(s), s.parse::<u32>().ok(), "for {s:?}");
    }
    assert_eq!(align_left("ab", 4), "ab  ");
    assert_eq!(align_right("ab", 4), "  ab");
    assert_eq!(align_right("abcde", 4), "abcde");
}

#[test]
fn escaping_keeps_texts_apart() {
    assert_eq!(pango_escape("a & <b>"), "a &amp; &lt;b&gt;");
    assert_ne!(pango_escape("<"), pango_escape("&lt;"));
}
