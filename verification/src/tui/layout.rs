//! Where things go in the terminal: wrapping, scrolling and centering.

use crate::text;
use crate::tui::style::{self, Style, Styled};
use vstd::arithmetic::div_mod::*;
use vstd::prelude::*;

verus! {

/// The text of a line.
pub open spec fn line_text(line: Seq<(Seq<char>, Style)>) -> Seq<char>
    decreases line.len(),
{
    if line.len() == 0 {
        Seq::empty()
    } else {
        line_text(line.drop_last()) + line.last().0
    }
}

/// The lengths of a text's words, which single spaces part; a text without a space is one word.
pub open spec fn word_lengths(s: Seq<char>) -> Seq<nat>
    decreases s.len(),
{
    if s.len() == 0 {
        seq![0nat]
    } else {
        let before = word_lengths(s.drop_last());
        if s.last() == ' ' {
            before.push(0)
        } else {
            before.update(before.len() - 1, before.last() + 1)
        }
    }
}

/// Rows and end column after a word is laid out from the left edge: a word wider than the line
/// is broken.
pub open spec fn from_edge(rows: nat, word: nat, width: nat) -> (nat, nat) {
    if word == 0 {
        (rows, 0)
    } else {
        (rows + (word - 1) as nat / width, ((word - 1) as nat % width) + 1)
    }
}

/// Rows and end column after one more word: behind a space where it fits, else on a new row.
pub open spec fn lay(at: (nat, nat), word: nat, width: nat) -> (nat, nat) {
    if at.1 == 0 {
        from_edge(at.0, word, width)
    } else if at.1 + 1 + word <= width {
        (at.0, at.1 + 1 + word)
    } else {
        from_edge(at.0 + 1, word, width)
    }
}

/// Rows and end column after the first `n` words.
pub open spec fn laid(words: Seq<nat>, n: nat, width: nat) -> (nat, nat)
    decreases n,
{
    if n == 0 {
        (1, 0)
    } else {
        lay(laid(words, (n - 1) as nat, width), words[n - 1], width)
    }
}

/// How many rows a text takes when it is wrapped at its spaces.
pub open spec fn rows_of(s: Seq<char>, width: nat) -> nat {
    let words = word_lengths(s);
    laid(words, words.len(), width).0
}

/// At least one column.
pub open spec fn usable(width: u16) -> nat {
    if width == 0 {
        1
    } else {
        width as nat
    }
}

proof fn lemma_laid_prefix(a: Seq<nat>, b: Seq<nat>, n: nat, width: nat)
    requires
        n <= a.len(),
        n <= b.len(),
        forall|i: int| 0 <= i < n ==> a[i] == b[i],
    ensures
        laid(a, n, width) == laid(b, n, width),
    decreases n,
{
    if n > 0 {
        lemma_laid_prefix(a, b, (n - 1) as nat, width);
    }
}

fn lay_word(at: (u128, u128), word: u128, width: u128) -> (r: (u128, u128))
    requires
        width > 0,
        at.0 <= 0x1_0000_0000_0000_0000_0000,
        at.1 <= width,
        word <= 0x1_0000_0000_0000_0000,
        width <= 65535,
    ensures
        (r.0 as nat, r.1 as nat) == lay((at.0 as nat, at.1 as nat), word as nat, width as nat),
        r.0 <= at.0 + word + 1,
        r.1 <= width,
{
    if at.1 != 0 && at.1 + 1 + word <= width {
        return (at.0, at.1 + 1 + word);
    }
    let start: u128 = if at.1 == 0 {
        at.0
    } else {
        at.0 + 1
    };
    if word == 0 {
        return (start, 0);
    }
    proof {
        let w: int = word - 1;
        lemma_div_nonincreasing(w, width as int);
        lemma_mod_bound(w, width as int);
        if at.1 != 0 {
            assert(at.1 + 1 + word > width);
        }
    }
    (start + (word - 1) / width, (word - 1) % width + 1)
}

fn rows_of_text(s: &Vec<char>, width: u16) -> (r: u128)
    ensures
        r == rows_of(s@, usable(width)),
{
    let w: u128 = if width == 0 {
        1
    } else {
        width as u128
    };
    let mut at: (u128, u128) = (1, 0);
    let mut word: u128 = 0;
    let mut i: usize = 0;
    let ghost words = word_lengths(s@.take(0));
    assert(s@.take(0) =~= Seq::<char>::empty());
    while i < s.len()
        invariant
            i <= s.len(),
            w == usable(width),
            words == word_lengths(s@.take(i as int)),
            words.len() > 0,
            word == words.last(),
            (at.0 as nat, at.1 as nat) == laid(words, (words.len() - 1) as nat, w as nat),
            at.1 <= w,
            at.0 + word <= 1 + i,
            i <= usize::MAX,
        decreases s.len() - i,
    {
        proof {
            let next = s@.take(i + 1);
            assert(next.drop_last() =~= s@.take(i as int));
            assert(next.last() == s@[i as int]);
        }
        if s[i] == ' ' {
            at = lay_word(at, word, w);
            proof {
                let before = words;
                words = before.push(0);
                lemma_laid_prefix(before, words, before.len(), w as nat);
            }
            word = 0;
        } else {
            word = word + 1;
            proof {
                let before = words;
                words = before.update(before.len() - 1, before.last() + 1);
                lemma_laid_prefix(before, words, (before.len() - 1) as nat, w as nat);
            }
        }
        i = i + 1;
    }
    assert(s@.take(s.len() as int) =~= s@);
    let end = lay_word(at, word, w);
    end.0
}

/// The characters of a line.
pub fn line_chars(line: &Vec<Styled>) -> (r: Vec<char>)
    ensures
        r@ == line_text(style::line_view(line@)),
{
    let ghost view = style::line_view(line@);
    let mut out: Vec<char> = Vec::new();
    let mut i: usize = 0;
    assert(view.take(0) =~= Seq::empty());
    while i < line.len()
        invariant
            i <= line.len(),
            view == style::line_view(line@),
            out@ == line_text(view.take(i as int)),
        decreases line.len() - i,
    {
        let mut more = text::chars_of(line[i].text.as_str());
        proof {
            let next = view.take(i + 1);
            assert(next.drop_last() =~= view.take(i as int));
            assert(next.last() == line@[i as int]@);
        }
        out.append(&mut more);
        i = i + 1;
    }
    assert(view.take(line.len() as int) =~= view);
    out
}

/// How many rows a line takes when it is wrapped, counted in sixteen bits.
pub fn wrapped_rows(line: &Vec<Styled>, width: u16) -> (r: u16)
    ensures
        r == rows_of(line_text(style::line_view(line@)), usable(width)) % 0x1_0000,
{
    let chars = line_chars(line);
    (rows_of_text(&chars, width) % 65536) as u16
}

/// The rows of the first `n` lines, counted as far as sixteen bits go.
pub open spec fn body_rows(lines: Seq<Seq<(Seq<char>, Style)>>, width: u16, n: nat) -> int
    decreases n,
{
    if n == 0 {
        0
    } else {
        let sum = body_rows(lines, width, (n - 1) as nat) + (rows_of(
            line_text(lines[n - 1]),
            usable(width),
        ) % 0x1_0000);
        if sum <= u16::MAX {
            sum
        } else {
            u16::MAX as int
        }
    }
}

/// How far a body may be scrolled so that its end stays in view.
pub open spec fn scroll_limit(lines: Seq<Seq<(Seq<char>, Style)>>, width: u16, height: u16) -> int {
    let rows = body_rows(lines, width, lines.len());
    if rows > height {
        rows - height
    } else {
        0
    }
}

/// A scroll offset moved back to where the end of the body is in view.
pub fn clamp_scroll(scroll: u16, body: &Vec<Vec<Styled>>, width: u16, height: u16) -> (r: u16)
    ensures
        r == (if scroll <= scroll_limit(style::lines_view(body@), width, height) {
            scroll as int
        } else {
            scroll_limit(style::lines_view(body@), width, height)
        }),
{
    let ghost lines = style::lines_view(body@);
    let mut rows: u16 = 0;
    let mut i: usize = 0;
    while i < body.len()
        invariant
            i <= body.len(),
            lines == style::lines_view(body@),
            rows == body_rows(lines, width, i as nat),
        decreases body.len() - i,
    {
        let more: u16 = wrapped_rows(&body[i], width);
        assert(lines[i as int] == style::line_view(body@[i as int]@));
        rows = if rows <= 65535 - more {
            rows + more
        } else {
            65535
        };
        i = i + 1;
    }
    let limit: u16 = if rows > height {
        rows - height
    } else {
        0
    };
    if scroll <= limit {
        scroll
    } else {
        limit
    }
}

/// A rectangle of terminal cells.
#[derive(Clone, Copy, Debug, PartialEq, Eq, Structural)]
pub struct Cells {
    pub x: u16,
    pub y: u16,
    pub width: u16,
    pub height: u16,
}

/// A share of a length, at most `most` and at most the length.
pub open spec fn share(length: u16, percent: u16, most: u16) -> int {
    let part = (length * percent / 100) % 0x1_0000;
    let bounded = if part <= most {
        part
    } else {
        most as int
    };
    if bounded <= length {
        bounded
    } else {
        length as int
    }
}

fn share_of(length: u16, percent: u16, most: u16) -> (r: u16)
    ensures
        r == share(length, percent, most),
        r <= length,
{
    proof {
        assert(0 <= length * percent <= 65535 * 65535) by (nonlinear_arith)
            requires
                length <= 65535,
                percent <= 65535,
        ;
    }
    let part: u32 = ((length as u32) * (percent as u32) / 100) % 65536;
    let bounded: u32 = if part <= most as u32 {
        part
    } else {
        most as u32
    };
    if bounded <= length as u32 {
        bounded as u16
    } else {
        length
    }
}

/// Whether `r` is a box in the middle of an area: a share of it, capped.
pub open spec fn is_centered(
    r: Cells,
    area: Cells,
    pct_x: u16,
    pct_y: u16,
    max_x: u16,
    max_y: u16,
) -> bool {
    &&& r.width == share(area.width, pct_x, max_x)
    &&& r.height == share(area.height, pct_y, max_y)
    &&& r.x == area.x + (area.width - r.width) / 2
    &&& r.y == area.y + (area.height - r.height) / 2
}

/// A box in the middle of an area: a share of it, capped.
pub fn centered_rect(area: Cells, pct_x: u16, pct_y: u16, max_x: u16, max_y: u16) -> (r: Cells)
    requires
        area.x + (area.width - share(area.width, pct_x, max_x)) / 2 <= u16::MAX,
        area.y + (area.height - share(area.height, pct_y, max_y)) / 2 <= u16::MAX,
    ensures
        is_centered(r, area, pct_x, pct_y, max_x, max_y),
{
    let w: u16 = share_of(area.width, pct_x, max_x);
    let h: u16 = share_of(area.height, pct_y, max_y);
    Cells {
        x: area.x + (area.width - w) / 2,
        y: area.y + (area.height - h) / 2,
        width: w,
        height: h,
    }
}

/// The box never leaves the area, and the room on its two sides differs by at most one.
pub proof fn law_box_is_centered(
    area: Cells,
    pct_x: u16,
    pct_y: u16,
    max_x: u16,
    max_y: u16,
    r: Cells,
)
    requires
        is_centered(r, area, pct_x, pct_y, max_x, max_y),
    ensures
        ({
            let left = r.x - area.x;
            let right = area.x + area.width - r.x - r.width;
            let top = r.y - area.y;
            let bottom = area.y + area.height - r.y - r.height;
            0 <= left <= right <= left + 1 && 0 <= top <= bottom <= top + 1
        }),
        r.width <= max_x && r.height <= max_y,
{
}

/// A text that fits takes exactly one row.
pub proof fn law_text_that_fits_takes_one_row(s: Seq<char>, width: nat)
    requires
        s.len() <= width,
        width > 0,
    ensures
        rows_of(s, width) == 1,
{
    lemma_fitting(s, width);
}

proof fn lemma_fitting(s: Seq<char>, width: nat)
    requires
        s.len() <= width,
        width > 0,
    ensures
        word_lengths(s).len() > 0,
        laid(word_lengths(s), (word_lengths(s).len() - 1) as nat, width).0 == 1,
        laid(word_lengths(s), (word_lengths(s).len() - 1) as nat, width).1 + word_lengths(s).last()
            <= s.len(),
        laid(word_lengths(s), (word_lengths(s).len() - 1) as nat, width).1 > 0 ==> laid(
            word_lengths(s),
            (word_lengths(s).len() - 1) as nat,
            width,
        ).1 + 1 + word_lengths(s).last() <= s.len(),
        rows_of(s, width) == 1,
    decreases s.len(),
{
    let words = word_lengths(s);
    if s.len() == 0 {
    } else {
        let t = s.drop_last();
        lemma_fitting(t, width);
        let before = word_lengths(t);
        let n = (before.len() - 1) as nat;
        if s.last() == ' ' {
            lemma_laid_prefix(before, words, before.len(), width);
            lemma_one_more(laid(before, n, width), before.last(), width);
        } else {
            lemma_laid_prefix(before, words, n, width);
        }
    }
    let n = (words.len() - 1) as nat;
    lemma_one_more(laid(words, n, width), words.last(), width);
}

proof fn lemma_one_more(at: (nat, nat), word: nat, width: nat)
    requires
        at.0 == 1,
        at.1 + word <= width,
        at.1 > 0 ==> at.1 + 1 + word <= width,
        width > 0,
    ensures
        lay(at, word, width).0 == 1,
        lay(at, word, width).1 == (if at.1 == 0 {
            word
        } else {
            at.1 + 1 + word
        }),
{
    if at.1 == 0 && word > 0 {
        lemma_fundamental_div_mod_converse(word - 1, width as int, 0, word - 1);
    }
}

proof fn lemma_one_word(s: Seq<char>)
    requires
        forall|i: int| 0 <= i < s.len() ==> #[trigger] s[i] != ' ',
    ensures
        word_lengths(s) == seq![s.len()],
    decreases s.len(),
{
    if s.len() > 0 {
        let t = s.drop_last();
        assert forall|i: int| 0 <= i < t.len() implies #[trigger] t[i] != ' ' by {
            assert(t[i] == s[i]);
        }
        lemma_one_word(t);
        assert(s.last() == s[s.len() - 1]);
        assert(word_lengths(s) =~= seq![s.len()]);
    } else {
        assert(word_lengths(s) =~= seq![0nat]);
    }
}

/// A text without a space is broken where the line ends: its rows are filled but for the last.
pub proof fn law_long_word_fills_its_rows(s: Seq<char>, width: nat)
    requires
        forall|i: int| 0 <= i < s.len() ==> #[trigger] s[i] != ' ',
        s.len() > 0,
        width > 0,
    ensures
        (rows_of(s, width) - 1) * width < s.len() <= rows_of(s, width) * width,
{
    lemma_one_word(s);
    let n: int = s.len() - 1;
    let w: int = width as int;
    lemma_fundamental_div_mod(n, w);
    let q = n / w;
    assert(laid(word_lengths(s), 0, width) == (1nat, 0nat));
    assert(rows_of(s, width) == 1 + q);
    assert(q * w <= n < (1 + q) * w) by (nonlinear_arith)
        requires
            n == w * q + n % w,
            0 <= n % w < w,
    ;
}

proof fn lemma_words_after_space(a: Seq<char>, b: Seq<char>)
    requires
        forall|i: int| 0 <= i < a.len() ==> #[trigger] a[i] != ' ',
        forall|i: int| 0 <= i < b.len() ==> #[trigger] b[i] != ' ',
    ensures
        word_lengths(a + seq![' '] + b) == seq![a.len(), b.len()],
    decreases b.len(),
{
    let s = a + seq![' '] + b;
    if b.len() == 0 {
        assert(s.drop_last() =~= a);
        lemma_one_word(a);
        assert(word_lengths(s) =~= seq![a.len(), 0nat]);
    } else {
        let t = b.drop_last();
        assert forall|i: int| 0 <= i < t.len() implies #[trigger] t[i] != ' ' by {
            assert(t[i] == b[i]);
        }
        lemma_words_after_space(a, t);
        assert(s.drop_last() =~= a + seq![' '] + t);
        assert(s.last() == b[b.len() - 1]);
        assert(word_lengths(s) =~= seq![a.len(), b.len()]);
    }
}

/// Two words share a row where they fit into it with the space between them; else the second
/// begins a row of its own.
pub proof fn law_words_wrap_at_the_space(a: Seq<char>, b: Seq<char>, width: nat)
    requires
        forall|i: int| 0 <= i < a.len() ==> #[trigger] a[i] != ' ',
        forall|i: int| 0 <= i < b.len() ==> #[trigger] b[i] != ' ',
        0 < a.len() <= width,
        0 < b.len() <= width,
    ensures
        rows_of(a + seq![' '] + b, width) == (if a.len() + 1 + b.len() <= width {
            1
        } else {
            2int
        }),
{
    lemma_words_after_space(a, b);
    let words = word_lengths(a + seq![' '] + b);
    assert(laid(words, 0, width) == (1nat, 0nat));
    lemma_fundamental_div_mod_converse(a.len() - 1, width as int, 0, a.len() - 1);
    lemma_fundamental_div_mod_converse(b.len() - 1, width as int, 0, b.len() - 1);
    assert(laid(words, 1, width) == (1nat, a.len()));
    assert(laid(words, 2, width) == lay((1nat, a.len()), b.len(), width));
}

/// The text of a line is that of its pieces, one behind the other.
pub proof fn law_line_text_is_its_pieces(line: Seq<(Seq<char>, Style)>, more: (Seq<char>, Style))
    ensures
        line_text(line.push(more)) == line_text(line) + more.0,
        line_text(Seq::empty()).len() == 0,
{
    assert(line.push(more).drop_last() =~= line);
}

/// Short of what can be counted, a body is as high as its lines together, and it can be scrolled
/// by as much as it is higher than the view.
pub proof fn law_scrolling_stops_at_the_end(
    lines: Seq<Seq<(Seq<char>, Style)>>,
    width: u16,
    height: u16,
    n: nat,
)
    requires
        0 < n <= lines.len(),
        rows_of(line_text(lines[n - 1]), usable(width)) <= 65535,
        body_rows(lines, width, (n - 1) as nat) + rows_of(line_text(lines[n - 1]), usable(width))
            <= 65535,
    ensures
        body_rows(lines, width, n) == body_rows(lines, width, (n - 1) as nat) + rows_of(
            line_text(lines[n - 1]),
            usable(width),
        ),
        body_rows(lines, width, 0) == 0,
        body_rows(lines, width, lines.len()) <= height ==> scroll_limit(lines, width, height) == 0,
        body_rows(lines, width, lines.len()) > height ==> scroll_limit(lines, width, height)
            + height == body_rows(lines, width, lines.len()),
{
    let r = rows_of(line_text(lines[n - 1]), usable(width));
    assert(r % 0x1_0000 == r) by (nonlinear_arith)
        requires
            0 <= r <= 65535,
    ;
}

/// Up to the whole of a length, a share of it is that many hundredths, rounded down, unless the
/// most that is allowed is less.
pub proof fn law_share_is_in_hundredths(length: u16, percent: u16, most: u16)
    requires
        percent <= 100,
    ensures
        share(length, percent, most) <= most,
        share(length, percent, most) < most ==> 100 * share(length, percent, most) <= length
            * percent < 100 * (share(length, percent, most) + 1),
        share(length, percent, most) == most ==> 100 * most <= length * percent,
{
    let p: int = length * percent;
    assert(0 <= p <= length * 100) by (nonlinear_arith)
        requires
            p == length * percent,
            0 <= percent <= 100,
            length >= 0,
    ;
    let q = p / 100;
    assert(0 <= q <= length);
    lemma_fundamental_div_mod_converse(q, 0x1_0000, 0, q);
}

/// Without a column there is still one to write in.
pub proof fn law_there_is_always_a_column(width: u16)
    ensures
        usable(width) >= 1,
        width > 0 ==> usable(width) == width,
{
}

} // verus!
