//! Fitting a row into the columns there are: the least important groups go first, each as a
//! whole.

use crate::order;
use crate::tui::style::{self, Style, Styled};
use vstd::prelude::*;

verus! {

/// How many terminal columns a text takes, as ratatui counts them.
pub uninterp spec fn columns(text: Seq<char>) -> nat;

/// `ratatui::text::Span::width`: the columns that the text takes in a terminal. How wide each
/// character is follows Unicode tables and is left unsaid; the result depends on the text
/// alone.
#[verifier::external_body]
fn text_columns(text: &str) -> (n: usize)
    ensures
        n == columns(text@),
{
    ratatui::text::Span::raw(text).width()
}

/// Texts that are kept or dropped together; the smaller the number the more important.
#[derive(Debug)]
pub struct Group {
    pub priority: u8,
    pub spans: Vec<Styled>,
}

/// What a group shows, under its priority.
pub type GroupView = (u8, Seq<(Seq<char>, Style)>);

impl View for Group {
    type V = GroupView;

    open spec fn view(&self) -> GroupView {
        (self.priority, style::line_view(self.spans@))
    }
}

/// What groups show.
pub open spec fn groups_view(groups: Seq<Group>) -> Seq<GroupView> {
    Seq::new(groups.len(), |i: int| groups[i]@)
}

/// The most columns that are counted.
pub const MOST: u16 = 65535;

/// A count of columns that saturates.
pub open spec fn capped(n: int) -> int {
    if n <= MOST {
        n
    } else {
        MOST as int
    }
}

/// The columns of texts in a row; a width counts by its lowest sixteen bits.
pub open spec fn total_columns(line: Seq<(Seq<char>, Style)>) -> int
    decreases line.len(),
{
    if line.len() == 0 {
        0
    } else {
        capped(total_columns(line.drop_last()) + (columns(line.last().0) % 0x1_0000) as int)
    }
}

/// The columns of the `n` most important groups together.
pub open spec fn columns_of_first(widths: Seq<u16>, order: Seq<int>, n: nat) -> int
    decreases n,
{
    if n == 0 {
        0
    } else {
        capped(columns_of_first(widths, order, (n - 1) as nat) + widths[order[n - 1]])
    }
}

/// The keys of priorities.
pub open spec fn priority_keys(priorities: Seq<u8>) -> Seq<i64> {
    Seq::new(priorities.len(), |i: int| priorities[i] as i64)
}

/// The groups, most important first, the first of equals first.
pub open spec fn importance(priorities: Seq<u8>) -> Seq<int> {
    order::sorted_indices(priority_keys(priorities))
}

/// Whether `keep` says which groups are kept: each that fits together with all that are more
/// important.
pub open spec fn is_fit(keep: Seq<bool>, priorities: Seq<u8>, widths: Seq<u16>, max: u16) -> bool {
    let order = importance(priorities);
    &&& keep.len() == priorities.len()
    &&& forall|n: int|
        0 <= n < order.len() ==> keep[#[trigger] order[n]] == (columns_of_first(
            widths,
            order,
            (n + 1) as nat,
        ) <= max)
}

/// Which groups are kept, given their widths.
pub fn fit_widths(priorities: &Vec<u8>, widths: &Vec<u16>, max: u16) -> (keep: Vec<bool>)
    requires
        priorities.len() == widths.len(),
    ensures
        is_fit(keep@, priorities@, widths@, max),
{
    let mut keys: Vec<i64> = Vec::new();
    let mut keep: Vec<bool> = Vec::new();
    let mut i: usize = 0;
    while i < priorities.len()
        invariant
            i <= priorities.len(),
            keys.len() == i,
            keep.len() == i,
            forall|k: int| 0 <= k < i ==> !(#[trigger] keep@[k]),
            forall|k: int| 0 <= k < i ==> #[trigger] keys@[k] == priority_keys(priorities@)[k],
        decreases priorities.len() - i,
    {
        keys.push(priorities[i] as i64);
        keep.push(false);
        i = i + 1;
    }
    assert(keys@ =~= priority_keys(priorities@));
    let sorted = order::sort_indices(&keys);
    let ghost order = importance(priorities@);
    proof {
        order::lemma_first_sorted_is_stable(keys@, keys@.len());
    }
    let mut used: u16 = 0;
    let mut n: usize = 0;
    while n < sorted.len()
        invariant
            n <= sorted.len(),
            order == order::as_ints(sorted@),
            order::is_stable_order(order, keys@, keys@.len()),
            keys.len() == priorities.len(),
            priorities.len() == widths.len(),
            sorted.len() == priorities.len(),
            keep.len() == priorities.len(),
            forall|k: int| 0 <= k < sorted.len() ==> #[trigger] sorted@[k] < widths.len(),
            used == columns_of_first(widths@, order, n as nat),
            forall|k: int|
                0 <= k < n ==> keep@[#[trigger] order[k]] == (columns_of_first(
                    widths@,
                    order,
                    (k + 1) as nat,
                ) <= max),
            forall|k: int| n <= k < order.len() ==> !keep@[#[trigger] order[k]],
        decreases sorted.len() - n,
    {
        let at: usize = sorted[n];
        let w: u16 = widths[at];
        assert(order[n as int] == at);
        used = if used <= 65535 - w {
            used + w
        } else {
            65535
        };
        let ghost before = keep@;
        if used <= max {
            keep.set(at, true);
        }
        proof {
            assert forall|k: int| 0 <= k < order.len() && k != n implies order[k] != at by {
                if k < n {
                    assert(order::stands_before(keys@, order[k], order[n as int]));
                } else {
                    assert(order::stands_before(keys@, order[n as int], order[k]));
                }
            }
            assert forall|k: int| 0 <= k < n + 1 implies keep@[#[trigger] order[k]] == (
            columns_of_first(widths@, order, (k + 1) as nat) <= max) by {
                if k < n {
                    assert(keep@[order[k]] == before[order[k]]);
                }
            }
            assert forall|k: int| n + 1 <= k < order.len() implies !keep@[#[trigger] order[k]] by {
                assert(keep@[order[k]] == before[order[k]]);
            }
        }
        n = n + 1;
    }
    keep
}

/// The kept groups' texts, in the order they are shown in.
pub open spec fn shown(groups: Seq<GroupView>, keep: Seq<bool>, n: nat) -> Seq<(Seq<char>, Style)>
    decreases n,
{
    if n == 0 {
        Seq::empty()
    } else {
        let before = shown(groups, keep, (n - 1) as nat);
        if keep[n - 1] {
            before + groups[n - 1].1
        } else {
            before
        }
    }
}

/// The widths of groups.
pub open spec fn group_widths(groups: Seq<GroupView>) -> Seq<u16> {
    Seq::new(groups.len(), |i: int| total_columns(groups[i].1) as u16)
}

/// The priorities of groups.
pub open spec fn group_priorities(groups: Seq<GroupView>) -> Seq<u8> {
    Seq::new(groups.len(), |i: int| groups[i].0)
}

/// Whether `line` is the row that groups make in `max` columns.
pub open spec fn is_row_of(line: Seq<(Seq<char>, Style)>, groups: Seq<GroupView>, max: u16) -> bool {
    exists|keep: Seq<bool>| #[trigger]
        is_fit(keep, group_priorities(groups), group_widths(groups), max) && line == shown(
            groups,
            keep,
            groups.len(),
        )
}

fn line_columns(line: &Vec<Styled>) -> (r: u16)
    ensures
        r == total_columns(style::line_view(line@)),
{
    let mut total: u16 = 0;
    let mut i: usize = 0;
    let ghost view = style::line_view(line@);
    while i < line.len()
        invariant
            i <= line.len(),
            view == style::line_view(line@),
            total == total_columns(view.take(i as int)),
        decreases line.len() - i,
    {
        let n: usize = text_columns(line[i].text.as_str());
        let w: u16 = (n % 65536) as u16;
        proof {
            let next = view.take(i + 1);
            assert(next.drop_last() =~= view.take(i as int));
            assert(next.last() == line@[i as int]@);
        }
        total = if total <= 65535 - w {
            total + w
        } else {
            65535
        };
        i = i + 1;
    }
    assert(view.take(line.len() as int) =~= view);
    total
}

/// The row that groups make in `max` columns.
pub fn fit_groups(groups: Vec<Group>, max: u16) -> (line: Vec<Styled>)
    ensures
        is_row_of(style::line_view(line@), groups_view(groups@), max),
{
    let ghost all = groups_view(groups@);
    let mut priorities: Vec<u8> = Vec::new();
    let mut widths: Vec<u16> = Vec::new();
    let mut i: usize = 0;
    while i < groups.len()
        invariant
            i <= groups.len(),
            priorities.len() == i,
            widths.len() == i,
            all == groups_view(groups@),
            forall|k: int| 0 <= k < i ==> #[trigger] priorities@[k] == group_priorities(all)[k],
            forall|k: int| 0 <= k < i ==> #[trigger] widths@[k] == group_widths(all)[k],
        decreases groups.len() - i,
    {
        priorities.push(groups[i].priority);
        widths.push(line_columns(&groups[i].spans));
        i = i + 1;
    }
    assert(priorities@ =~= group_priorities(all));
    assert(widths@ =~= group_widths(all));
    let keep = fit_widths(&priorities, &widths, max);
    let ghost given = groups@;
    let mut rest = groups;
    let mut line: Vec<Styled> = Vec::new();
    let mut n: usize = 0;
    assert(style::line_view(line@) =~= shown(all, keep@, 0));
    assert(given.skip(0) =~= given);
    while rest.len() > 0
        invariant
            n <= all.len() == keep.len(),
            all == groups_view(given),
            rest@ == given.skip(n as int),
            style::line_view(line@) == shown(all, keep@, n as nat),
        decreases rest.len(),
    {
        let group = rest.remove(0);
        assert(group == given[n as int]);
        assert(rest@ =~= given.skip(n + 1));
        if keep[n] {
            let mut spans = group.spans;
            let ghost before = line@;
            let ghost added = spans@;
            line.append(&mut spans);
            assert(style::line_view(line@) =~= style::line_view(before) + style::line_view(added));
        }
        n = n + 1;
    }
    assert(n == all.len());
    line
}

proof fn lemma_columns_of_first_grow(widths: Seq<u16>, order: Seq<int>, m: nat, n: nat)
    requires
        m <= n,
    ensures
        0 <= columns_of_first(widths, order, m) <= columns_of_first(widths, order, n) <= MOST,
    decreases n,
{
    if n > 0 {
        if m < n {
            lemma_columns_of_first_grow(widths, order, m, (n - 1) as nat);
        } else {
            lemma_columns_of_first_grow(widths, order, (n - 1) as nat, (n - 1) as nat);
        }
    }
}

/// Groups are dropped least important first: none is kept where a more important one, or an
/// earlier one of the same priority, is dropped.
pub proof fn law_no_group_outlives_a_more_important_one(
    keep: Seq<bool>,
    priorities: Seq<u8>,
    widths: Seq<u16>,
    max: u16,
    m: int,
    n: int,
)
    requires
        is_fit(keep, priorities, widths, max),
        0 <= m < n < priorities.len(),
    ensures
        keep[importance(priorities)[n]] ==> keep[importance(priorities)[m]],
{
    let keys = priority_keys(priorities);
    order::lemma_first_sorted_is_stable(keys, keys.len());
    lemma_columns_of_first_grow(
        widths,
        importance(priorities),
        (m + 1) as nat,
        (n + 1) as nat,
    );
}

proof fn lemma_importance_holds(priorities: Seq<u8>, i: int) -> (n: int)
    requires
        0 <= i < priorities.len(),
    ensures
        0 <= n < importance(priorities).len() == priorities.len(),
        importance(priorities)[n] == i,
{
    let keys = priority_keys(priorities);
    order::lemma_first_sorted_is_stable(keys, keys.len());
    assert(importance(priorities).contains(i));
    choose|n: int| 0 <= n < importance(priorities).len() && importance(priorities)[n] == i
}

/// A group is kept only together with every group of a smaller number.
pub proof fn law_smaller_numbers_stay_longer(
    keep: Seq<bool>,
    priorities: Seq<u8>,
    widths: Seq<u16>,
    max: u16,
    i: int,
    j: int,
)
    requires
        is_fit(keep, priorities, widths, max),
        0 <= i < priorities.len(),
        0 <= j < priorities.len(),
        priorities[i] < priorities[j],
        keep[j],
    ensures
        keep[i],
{
    let keys = priority_keys(priorities);
    let order = importance(priorities);
    order::lemma_first_sorted_is_stable(keys, keys.len());
    let m = lemma_importance_holds(priorities, i);
    let n = lemma_importance_holds(priorities, j);
    if n < m {
        assert(order::stands_before(keys, order[n], order[m]));
    }
    law_no_group_outlives_a_more_important_one(keep, priorities, widths, max, m, n);
}

/// The columns of the kept ones of the first `n` groups.
pub open spec fn kept_columns(keep: Seq<bool>, widths: Seq<u16>, n: nat) -> int
    decreases n,
{
    if n == 0 {
        0
    } else {
        kept_columns(keep, widths, (n - 1) as nat) + (if keep[n - 1] {
            widths[n - 1] as int
        } else {
            0
        })
    }
}

/// The columns of the kept ones of the groups that `order` lists.
spec fn listed_columns(keep: Seq<bool>, widths: Seq<u16>, order: Seq<int>) -> int
    decreases order.len(),
{
    if order.len() == 0 {
        0
    } else {
        listed_columns(keep, widths, order.drop_last()) + (if keep[order.last()] {
            widths[order.last()] as int
        } else {
            0
        })
    }
}

proof fn lemma_listed_without(keep: Seq<bool>, widths: Seq<u16>, order: Seq<int>, k: int)
    requires
        0 <= k < order.len(),
    ensures
        listed_columns(keep, widths, order) == listed_columns(keep, widths, order.remove(k)) + (
        if keep[order[k]] {
            widths[order[k]] as int
        } else {
            0
        }),
    decreases order.len(),
{
    if k == order.len() - 1 {
        assert(order.remove(k) =~= order.drop_last());
    } else {
        lemma_listed_without(keep, widths, order.drop_last(), k);
        let less = order.remove(k);
        assert(less.drop_last() =~= order.drop_last().remove(k));
        assert(less.last() == order.last());
    }
}

/// A list that holds each index below its length once has the same columns in any order.
proof fn lemma_listed_in_any_order(keep: Seq<bool>, widths: Seq<u16>, order: Seq<int>)
    requires
        forall|i: int| 0 <= i < order.len() ==> #[trigger] order.contains(i),
        forall|k: int| 0 <= k < order.len() ==> 0 <= #[trigger] order[k] < order.len(),
        order.no_duplicates(),
    ensures
        listed_columns(keep, widths, order) == kept_columns(keep, widths, order.len()),
    decreases order.len(),
{
    if order.len() > 0 {
        let top: int = order.len() - 1;
        assert(order.contains(top));
        let k = choose|k: int| 0 <= k < order.len() && order[k] == top;
        let less = order.remove(k);
        lemma_listed_without(keep, widths, order, k);
        assert forall|i: int| 0 <= i < less.len() implies #[trigger] less.contains(i) by {
            assert(order.contains(i));
            let at = choose|at: int| 0 <= at < order.len() && order[at] == i;
            if at < k {
                assert(less[at] == i);
            } else {
                assert(less[at - 1] == i);
            }
        }
        assert forall|l: int| 0 <= l < less.len() implies 0 <= #[trigger] less[l] < less.len() by {
            let at = if l < k {
                l
            } else {
                l + 1
            };
            assert(less[l] == order[at]);
            assert(order[at] != order[k]);
        }
        lemma_listed_in_any_order(keep, widths, less);
    }
}

/// The kept among the `n` most important groups take no more than `max` columns.
proof fn lemma_first_kept_fit(
    keep: Seq<bool>,
    priorities: Seq<u8>,
    widths: Seq<u16>,
    max: u16,
    n: nat,
)
    requires
        is_fit(keep, priorities, widths, max),
        max < MOST,
        n <= importance(priorities).len(),
    ensures
        ({
            let order = importance(priorities);
            let listed = listed_columns(keep, widths, order.take(n as int));
            &&& listed <= max
            &&& columns_of_first(widths, order, n) <= max ==> listed == columns_of_first(
                widths,
                order,
                n,
            )
        }),
    decreases n,
{
    let order = importance(priorities);
    if n > 0 {
        let m = (n - 1) as nat;
        lemma_first_kept_fit(keep, priorities, widths, max, m);
        lemma_columns_of_first_grow(widths, order, m, n);
        let list = order.take(n as int);
        assert(list.drop_last() =~= order.take(m as int));
        assert(list.last() == order[n - 1]);
        assert(keep[order[n - 1]] == (columns_of_first(widths, order, n) <= max));
    }
}

/// The kept groups never take more columns than there are.
pub proof fn law_kept_groups_fit(
    keep: Seq<bool>,
    priorities: Seq<u8>,
    widths: Seq<u16>,
    max: u16,
)
    requires
        is_fit(keep, priorities, widths, max),
        max < MOST,
    ensures
        kept_columns(keep, widths, keep.len()) <= max,
{
    let keys = priority_keys(priorities);
    let order = importance(priorities);
    order::lemma_first_sorted_is_stable(keys, keys.len());
    assert forall|k: int, l: int| 0 <= k < l < order.len() implies order[k] != order[l] by {
        assert(order::stands_before(keys, order[k], order[l]));
    }
    assert(order.no_duplicates());
    lemma_listed_in_any_order(keep, widths, order);
    lemma_first_kept_fit(keep, priorities, widths, max, order.len());
    assert(order.take(order.len() as int) =~= order);
}

/// Where there is room for every group, none is dropped.
pub proof fn law_a_row_that_fits_is_whole(
    keep: Seq<bool>,
    priorities: Seq<u8>,
    widths: Seq<u16>,
    max: u16,
    i: int,
)
    requires
        is_fit(keep, priorities, widths, max),
        columns_of_first(widths, importance(priorities), priorities.len()) <= max,
        0 <= i < priorities.len(),
    ensures
        keep[i],
{
    let order = importance(priorities);
    let n = lemma_importance_holds(priorities, i);
    lemma_columns_of_first_grow(widths, order, (n + 1) as nat, priorities.len());
    assert(keep[order[n]]);
}

/// The most important group is kept wherever it fits by itself.
pub proof fn law_most_important_group_is_kept(
    keep: Seq<bool>,
    priorities: Seq<u8>,
    widths: Seq<u16>,
    max: u16,
    i: int,
)
    requires
        is_fit(keep, priorities, widths, max),
        priorities.len() == widths.len(),
        0 <= i < priorities.len(),
        widths[i] <= max,
        forall|j: int| 0 <= j < priorities.len() && j != i ==> priorities[i] < #[trigger] priorities[j],
    ensures
        keep[i],
{
    let keys = priority_keys(priorities);
    let order = importance(priorities);
    order::lemma_first_sorted_is_stable(keys, keys.len());
    let k = lemma_importance_holds(priorities, i);
    if k > 0 {
        assert(order::stands_before(keys, order[0], order[k]));
        assert(0 <= order[0] < keys.len());
        assert(keys[order[0]] == priorities[order[0]] as i64);
        assert(keys[i] == priorities[i] as i64);
    }
    assert(columns_of_first(widths, order, 0) == 0);
    assert(columns_of_first(widths, order, 1) <= max);
}

/// The texts of the first `n` groups in a row.
pub open spec fn all_texts(groups: Seq<GroupView>, n: nat) -> Seq<(Seq<char>, Style)>
    decreases n,
{
    if n == 0 {
        Seq::empty()
    } else {
        all_texts(groups, (n - 1) as nat) + groups[n - 1].1
    }
}

proof fn lemma_all_shown(groups: Seq<GroupView>, keep: Seq<bool>, n: nat)
    requires
        forall|i: int| 0 <= i < n ==> #[trigger] keep[i],
    ensures
        shown(groups, keep, n) == all_texts(groups, n),
    decreases n,
{
    if n > 0 {
        lemma_all_shown(groups, keep, (n - 1) as nat);
        assert(keep[n - 1]);
    }
}

/// A row with room for every group shows all of their texts, in their order.
pub proof fn law_wide_row_shows_everything(
    line: Seq<(Seq<char>, Style)>,
    groups: Seq<GroupView>,
    max: u16,
)
    requires
        is_row_of(line, groups, max),
        columns_of_first(
            group_widths(groups),
            importance(group_priorities(groups)),
            groups.len(),
        ) <= max,
    ensures
        line == all_texts(groups, groups.len()),
{
    let priorities = group_priorities(groups);
    let widths = group_widths(groups);
    let keep = choose|keep: Seq<bool>| #[trigger]
        is_fit(keep, priorities, widths, max) && line == shown(groups, keep, groups.len());
    assert forall|i: int| 0 <= i < groups.len() implies #[trigger] keep[i] by {
        law_a_row_that_fits_is_whole(keep, priorities, widths, max, i);
    }
    lemma_all_shown(groups, keep, groups.len());
}

/// A kept group is shown with all of its texts, side by side, and a dropped one with none: the
/// row has as many texts as the kept groups together.
pub proof fn law_groups_are_kept_whole(
    groups: Seq<GroupView>,
    keep: Seq<bool>,
    n: nat,
    k: int,
) -> (at: int)
    requires
        0 <= k < n <= groups.len(),
    ensures
        keep[k] ==> 0 <= at && at + groups[k].1.len() <= shown(groups, keep, n).len() && shown(
            groups,
            keep,
            n,
        ).subrange(at, at + groups[k].1.len()) == groups[k].1,
        shown(groups, keep, n).len() == kept_texts(groups, keep, n),
    decreases n,
{
    let before = shown(groups, keep, (n - 1) as nat);
    let all = shown(groups, keep, n);
    if n > 1 {
        let at = law_groups_are_kept_whole(groups, keep, (n - 1) as nat, if k == n - 1 {
            0
        } else {
            k
        });
        if k == n - 1 {
            if keep[k] {
                assert(all.subrange(
                    before.len() as int,
                    (before.len() + groups[k].1.len()) as int,
                ) =~= groups[k].1);
            }
            before.len() as int
        } else {
            if keep[k] {
                assert(all.subrange(at, at + groups[k].1.len()) =~= before.subrange(
                    at,
                    at + groups[k].1.len(),
                ));
            }
            at
        }
    } else {
        assert(before.len() == 0 && kept_texts(groups, keep, 0) == 0);
        if keep[k] {
            assert(all.subrange(0, groups[k].1.len() as int) =~= groups[k].1);
        }
        0
    }
}

/// How many texts the kept ones of the first `n` groups have.
pub open spec fn kept_texts(groups: Seq<GroupView>, keep: Seq<bool>, n: nat) -> nat
    decreases n,
{
    if n == 0 {
        0
    } else if keep[n - 1] {
        kept_texts(groups, keep, (n - 1) as nat) + groups[n - 1].1.len()
    } else {
        kept_texts(groups, keep, (n - 1) as nat)
    }
}

/// Short of what can be counted, texts take together as many columns as they take one by one.
pub proof fn law_columns_add_up(line: Seq<(Seq<char>, Style)>, more: (Seq<char>, Style))
    requires
        columns(more.0) < 0x1_0000,
        total_columns(line) + columns(more.0) <= 65535,
    ensures
        total_columns(line.push(more)) == total_columns(line) + columns(more.0),
        total_columns(Seq::empty()) == 0,
{
    assert(line.push(more).drop_last() =~= line);
    let c = columns(more.0);
    assert(c % 0x1_0000 == c) by (nonlinear_arith)
        requires
            0 <= c < 0x1_0000,
    ;
}

/// A group shows its texts under its priority.
pub proof fn law_groups_show_their_texts(groups: Seq<Group>, g: int, i: int)
    requires
        0 <= g < groups.len(),
        0 <= i < groups[g].spans@.len(),
    ensures
        groups_view(groups).len() == groups.len(),
        groups_view(groups)[g].0 == groups[g].priority,
        groups_view(groups)[g].1.len() == groups[g].spans@.len(),
        groups_view(groups)[g].1[i].0 == groups[g].spans@[i].text@,
        groups_view(groups)[g].1[i].1 == groups[g].spans@[i].style,
        group_priorities(groups_view(groups))[g] == groups[g].priority,
{
}

/// Of groups with one priority the earlier one stays longer.
pub proof fn law_of_equals_the_first_stays(
    keep: Seq<bool>,
    priorities: Seq<u8>,
    widths: Seq<u16>,
    max: u16,
    i: int,
    j: int,
)
    requires
        is_fit(keep, priorities, widths, max),
        0 <= i < j < priorities.len(),
        priorities[i] == priorities[j],
        keep[j],
    ensures
        keep[i],
{
    let keys = priority_keys(priorities);
    let order = importance(priorities);
    order::lemma_first_sorted_is_stable(keys, keys.len());
    let m = lemma_importance_holds(priorities, i);
    let n = lemma_importance_holds(priorities, j);
    if n < m {
        assert(order::stands_before(keys, order[n], order[m]));
    }
    law_no_group_outlives_a_more_important_one(keep, priorities, widths, max, m, n);
}

/// Short of what can be counted, one more group takes its own columns more.
pub proof fn law_each_group_takes_its_own_columns(widths: Seq<u16>, order: Seq<int>, n: nat)
    requires
        columns_of_first(widths, order, n) + widths[order[n as int]] <= 65535,
    ensures
        columns_of_first(widths, order, n + 1) == columns_of_first(widths, order, n)
            + widths[order[n as int]],
        columns_of_first(widths, order, 0) == 0,
{
}

} // verus!
