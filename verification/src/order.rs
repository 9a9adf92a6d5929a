//! Stable ordering by an integer key.

use vstd::prelude::*;

verus! {

/// `order` with the index `x` put behind every index whose key is no larger.
pub open spec fn with_index(order: Seq<int>, keys: Seq<i64>, x: int) -> Seq<int>
    decreases order.len(),
{
    if order.len() == 0 || keys[order.last()] <= keys[x] {
        order.push(x)
    } else {
        with_index(order.drop_last(), keys, x).push(order.last())
    }
}

/// The indices of the first `n` keys, smallest key first, equal keys in their given order.
pub open spec fn first_sorted(keys: Seq<i64>, n: nat) -> Seq<int>
    decreases n,
{
    if n == 0 {
        Seq::empty()
    } else {
        with_index(first_sorted(keys, (n - 1) as nat), keys, n - 1)
    }
}

/// The indices of `keys`, smallest key first, equal keys in their given order.
pub open spec fn sorted_indices(keys: Seq<i64>) -> Seq<int> {
    first_sorted(keys, keys.len())
}

/// Whether the entry `a` belongs before the entry `b`.
pub open spec fn stands_before(keys: Seq<i64>, a: int, b: int) -> bool {
    keys[a] < keys[b] || (keys[a] == keys[b] && a < b)
}

/// Every index below `n` occurs, and each stands before those that follow it.
pub open spec fn is_stable_order(order: Seq<int>, keys: Seq<i64>, n: nat) -> bool {
    &&& order.len() == n
    &&& forall|k: int| 0 <= k < n ==> 0 <= #[trigger] order[k] < n
    &&& forall|i: int| 0 <= i < n ==> #[trigger] order.contains(i)
    &&& forall|k: int, l: int|
        0 <= k < l < n ==> #[trigger] stands_before(keys, order[k], order[l])
}

proof fn lemma_with_index(order: Seq<int>, keys: Seq<i64>, x: int, j: int)
    requires
        0 <= j <= order.len(),
        j > 0 ==> keys[order[j - 1]] <= keys[x],
        forall|k: int| j <= k < order.len() ==> keys[#[trigger] order[k]] > keys[x],
    ensures
        with_index(order, keys, x) == order.insert(j, x),
    decreases order.len(),
{
    if j == order.len() {
        if j > 0 {
            assert(order.last() == order[j - 1]);
        }
        assert(order.insert(j, x) =~= order.push(x));
    } else {
        assert(keys[order[order.len() - 1]] > keys[x]);
        let front = order.drop_last();
        assert forall|k: int| j <= k < front.len() implies keys[#[trigger] front[k]] > keys[x] by {
            assert(front[k] == order[k]);
        }
        lemma_with_index(front, keys, x, j);
        assert(order.insert(j, x) =~= front.insert(j, x).push(order.last()));
    }
}

/// Sorting keeps every index exactly once, orders by key, and keeps equal keys in their given
/// order.
pub proof fn lemma_first_sorted_is_stable(keys: Seq<i64>, n: nat)
    requires
        n <= keys.len(),
    ensures
        is_stable_order(first_sorted(keys, n), keys, n),
    decreases n,
{
    if n > 0 {
        let m = (n - 1) as nat;
        let before = first_sorted(keys, m);
        lemma_first_sorted_is_stable(keys, m);
        let x: int = n - 1;
        let j = lemma_insertion_point(before, keys, x, before.len() as int);
        lemma_with_index(before, keys, x, j);
        let after = before.insert(j, x);
        assert(first_sorted(keys, n) == after);
        assert forall|i: int| 0 <= i < n implies #[trigger] after.contains(i) by {
            if i == x {
                assert(after[j] == x);
            } else {
                assert(before.contains(i));
                let k = choose|k: int| 0 <= k < before.len() && before[k] == i;
                if k < j {
                    assert(after[k] == i);
                } else {
                    assert(after[k + 1] == i);
                }
            }
        }
        assert forall|k: int, l: int| 0 <= k < l < n implies #[trigger] stands_before(
            keys,
            after[k],
            after[l],
        ) by {
            if k < j && l < j {
                assert(stands_before(keys, before[k], before[l]));
            } else if k < j && l == j {
                if k < j - 1 {
                    assert(stands_before(keys, before[k], before[j - 1]));
                }
            } else if k < j && l > j {
                assert(stands_before(keys, before[k], before[l - 1]));
            } else if k == j {
                assert(before[l - 1] == after[l]);
            } else {
                assert(stands_before(keys, before[k - 1], before[l - 1]));
            }
        }
    }
}

proof fn lemma_insertion_point(order: Seq<int>, keys: Seq<i64>, x: int, top: int) -> (j: int)
    requires
        0 <= top <= order.len(),
        forall|k: int| top <= k < order.len() ==> keys[#[trigger] order[k]] > keys[x],
    ensures
        0 <= j <= order.len(),
        j > 0 ==> keys[order[j - 1]] <= keys[x],
        forall|k: int| j <= k < order.len() ==> keys[#[trigger] order[k]] > keys[x],
    decreases top,
{
    if top == 0 || keys[order[top - 1]] <= keys[x] {
        top
    } else {
        lemma_insertion_point(order, keys, x, top - 1)
    }
}

/// The indices held by a vector, as mathematical integers.
pub open spec fn as_ints(v: Seq<usize>) -> Seq<int> {
    Seq::new(v.len(), |k: int| v[k] as int)
}

/// The indices of `keys`, smallest key first, equal keys in their given order.
pub fn sort_indices(keys: &Vec<i64>) -> (order: Vec<usize>)
    ensures
        as_ints(order@) == sorted_indices(keys@),
        order.len() == keys.len(),
        forall|k: int| 0 <= k < order.len() ==> #[trigger] order@[k] < keys.len(),
{
    let mut order: Vec<usize> = Vec::new();
    let mut x: usize = 0;
    assert(as_ints(order@) =~= first_sorted(keys@, 0));
    while x < keys.len()
        invariant
            x <= keys.len(),
            order.len() == x,
            as_ints(order@) == first_sorted(keys@, x as nat),
            forall|k: int| 0 <= k < order.len() ==> #[trigger] order@[k] < x,
        decreases keys.len() - x,
    {
        let mut j: usize = order.len();
        while j > 0 && keys[order[j - 1]] > keys[x]
            invariant
                j <= order.len(),
                x < keys.len(),
                forall|k: int| 0 <= k < order.len() ==> #[trigger] order@[k] < x,
                forall|k: int|
                    j <= k < order.len() ==> keys@[#[trigger] order@[k] as int] > keys@[x as int],
            decreases j,
        {
            j = j - 1;
        }
        let ghost before = order@;
        proof {
            let b = as_ints(before);
            assert forall|k: int| j <= k < b.len() implies keys@[#[trigger] b[k]]
                > keys@[x as int] by {
                assert(b[k] == before[k]);
            }
            lemma_with_index(b, keys@, x as int, j as int);
        }
        order.insert(j, x);
        assert(as_ints(order@) =~= as_ints(before).insert(j as int, x as int));
        assert forall|k: int| 0 <= k < order.len() implies #[trigger] order@[k] < x + 1 by {
            if k < j {
                assert(order@[k] == before[k]);
            } else if k > j {
                assert(order@[k] == before[k - 1]);
            }
        }
        x = x + 1;
    }
    order
}

/// Sorting lists every index once, the smaller key first, and of equal keys the earlier one.
pub proof fn law_sorting_is_by_key_and_place(keys: Seq<i64>, k: int, l: int)
    requires
        0 <= k < l < keys.len(),
    ensures
        sorted_indices(keys).len() == keys.len(),
        0 <= sorted_indices(keys)[k] < keys.len(),
        0 <= sorted_indices(keys)[l] < keys.len(),
        keys[sorted_indices(keys)[k]] <= keys[sorted_indices(keys)[l]],
        keys[sorted_indices(keys)[k]] == keys[sorted_indices(keys)[l]] ==> sorted_indices(keys)[k]
            < sorted_indices(keys)[l],
        sorted_indices(keys)[k] != sorted_indices(keys)[l],
        sorted_indices(keys).contains(k),
{
    lemma_first_sorted_is_stable(keys, keys.len());
    assert(stands_before(keys, sorted_indices(keys)[k], sorted_indices(keys)[l]));
}

} // verus!
