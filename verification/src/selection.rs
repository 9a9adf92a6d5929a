//! Stepping a selection through the flights, which is held by address so that it stays on the
//! same aircraft as the order changes.

use crate::api::Flight;
use crate::display;
use vstd::arithmetic::div_mod::*;
use vstd::prelude::*;

verus! {

/// The index after a step that wraps around; without a current one, the first or the last.
pub open spec fn stepped(current: Option<usize>, n: int, forward: bool) -> int {
    match current {
        Some(i) => if forward {
            (i + 1) % n
        } else {
            (i + n - 1) % n
        },
        None => if forward {
            0
        } else {
            n - 1
        },
    }
}

/// The index after a step that wraps around; an index past the end wraps too.
pub fn next_index(current: Option<usize>, n: usize, forward: bool) -> (r: usize)
    requires
        n > 0,
    ensures
        r == stepped(current, n as int, forward),
        r < n,
{
    match current {
        Some(i) => {
            let at: usize = i % n;
            proof {
                lemma_add_mod_noop_right(1, i as int, n as int);
                lemma_add_mod_noop_right(n - 1, i as int, n as int);
                lemma_wrapping(at as int, n as int);
            }
            if forward {
                if at + 1 < n {
                    at + 1
                } else {
                    0
                }
            } else if at > 0 {
                at - 1
            } else {
                n - 1
            }
        },
        None => if forward {
            0
        } else {
            n - 1
        },
    }
}

proof fn lemma_wrapping(i: int, n: int)
    requires
        0 <= i < n,
    ensures
        (i + 1) % n == (if i + 1 < n {
            i + 1
        } else {
            0
        }),
        (i + n - 1) % n == (if i > 0 {
            i - 1
        } else {
            n - 1
        }),
{
    if i + 1 < n {
        lemma_fundamental_div_mod_converse(i + 1, n, 0, i + 1);
    } else {
        lemma_fundamental_div_mod_converse(n, n, 1, 0);
    }
    if i > 0 {
        lemma_fundamental_div_mod_converse(i + n - 1, n, 1, i - 1);
    } else {
        lemma_fundamental_div_mod_converse(n - 1, n, 0, n - 1);
    }
}

/// Whether `next` is what a step makes of the selection.
pub open spec fn is_step(
    tracks: Seq<Flight>,
    selected: Option<String>,
    forward: bool,
    next: Option<String>,
) -> bool {
    if tracks.len() == 0 {
        next is None
    } else {
        next is Some && exists|current: Option<usize>| #[trigger]
            current_at(tracks, selected, current) && next->0 == tracks[stepped(
                current,
                tracks.len() as int,
                forward,
            )].hex
    }
}

/// Whether `current` is where the selection stands.
pub open spec fn current_at(tracks: Seq<Flight>, selected: Option<String>, current: Option<usize>) -> bool {
    match selected {
        Some(hex) => display::found_at(tracks, hex@, current),
        None => current is None,
    }
}

/// What a step makes of the selection.
pub fn step(tracks: &Vec<Flight>, selected: &Option<String>, forward: bool) -> (r: Option<String>)
    ensures
        is_step(tracks@, *selected, forward, r),
{
    if tracks.len() == 0 {
        return None;
    }
    let current = match selected {
        Some(hex) => display::find_hex(tracks, hex.as_str()),
        None => None,
    };
    assert(current_at(tracks@, *selected, current));
    let i: usize = next_index(current, tracks.len(), forward);
    Some(tracks[i].hex.clone())
}

/// A step forward and a step back, in either order, end where they began.
pub proof fn law_steps_are_inverse(i: usize, n: usize, forward: bool)
    requires
        i < n,
    ensures
        0 <= stepped(Some(i), n as int, forward) < n,
        stepped(Some(stepped(Some(i), n as int, forward) as usize), n as int, !forward) == i,
{
    lemma_wrapping(i as int, n as int);
    lemma_wrapping(stepped(Some(i), n as int, forward), n as int);
}

/// `k` steps forward.
pub open spec fn walked(start: int, n: int, k: nat) -> int
    decreases k,
{
    if k == 0 {
        start
    } else {
        stepped(Some(walked(start, n, (k - 1) as nat) as usize), n, true)
    }
}

proof fn lemma_walked(start: int, n: usize, k: nat)
    requires
        0 <= start < n,
    ensures
        walked(start, n as int, k) == (start + k) % n as int,
    decreases k,
{
    let m: int = n as int;
    if k == 0 {
        lemma_fundamental_div_mod_converse(start, m, 0, start);
    } else {
        lemma_walked(start, n, (k - 1) as nat);
        let at = (start + k - 1) % m;
        lemma_mod_bound(start + k - 1, m);
        lemma_add_mod_noop(start + k - 1, 1, m);
        assert(at as usize == at);
        if m > 1 {
            lemma_small_mod(1, m as nat);
            assert((at + 1) % m == (start + k) % m);
        } else {
            assert((at + 1) % m == 0);
            assert((start + k) % m == 0);
        }
    }
}

/// From any flight, stepping forward reaches every flight before it returns to the first one,
/// after as many steps as there are flights.
pub proof fn law_walking_visits_every_flight(start: usize, target: usize, n: usize)
    requires
        start < n,
        target < n,
    ensures
        exists|k: nat| k < n && #[trigger] walked(start as int, n as int, k) == target,
        walked(start as int, n as int, n as nat) == start,
{
    let m: int = n as int;
    let k: int = if target >= start {
        target - start
    } else {
        target - start + m
    };
    lemma_walked(start as int, n, k as nat);
    if target >= start {
        lemma_fundamental_div_mod_converse(start + k, m, 0, target as int);
    } else {
        lemma_fundamental_div_mod_converse(start + k, m, 1, target as int);
    }
    assert(walked(start as int, m, k as nat) == target);
    lemma_walked(start as int, n, n as nat);
    lemma_fundamental_div_mod_converse(start + m, m, 1, start as int);
}

/// A step forward from any flight but the last goes to the one behind it, and from the last to
/// the first; a step back the other way round. Without a selection a step forward begins at the
/// first flight, a step back at the last.
pub proof fn law_steps_go_to_the_neighbour(i: usize, n: usize)
    requires
        i < n,
    ensures
        i + 1 < n ==> stepped(Some(i), n as int, true) == i + 1,
        i + 1 == n ==> stepped(Some(i), n as int, true) == 0,
        i > 0 ==> stepped(Some(i), n as int, false) == i - 1,
        i == 0 ==> stepped(Some(i), n as int, false) == n - 1,
        stepped(None, n as int, true) == 0,
        stepped(None, n as int, false) == n - 1,
{
    lemma_wrapping(i as int, n as int);
}

/// A step selects a flight of the picture by its address: the neighbour of the selected one,
/// wherever the order has put that; where the selected one is gone, as if none were selected.
pub proof fn law_step_selects_the_neighbour(
    tracks: Seq<Flight>,
    selected: Option<String>,
    forward: bool,
    next: Option<String>,
    k: int,
)
    requires
        is_step(tracks, selected, forward, next),
        tracks.len() <= usize::MAX,
    ensures
        next is None <==> tracks.len() == 0,
        selected is None && tracks.len() > 0 ==> next->0 == tracks[if forward {
            0
        } else {
            tracks.len() - 1
        }].hex,
        selected is Some && 0 <= k < tracks.len() && tracks[k].hex@ == selected->0@ && (forall|j:
            int|
            0 <= j < k ==> (#[trigger] tracks[j]).hex@ != selected->0@) ==> next->0 == tracks[if
        forward {
            if k + 1 < tracks.len() {
                k + 1
            } else {
                0
            }
        } else if k > 0 {
            k - 1
        } else {
            tracks.len() - 1
        }].hex,
        selected is Some && tracks.len() > 0 && (forall|j: int|
            0 <= j < tracks.len() ==> (#[trigger] tracks[j]).hex@ != selected->0@) ==> next->0
            == tracks[if forward {
            0
        } else {
            tracks.len() - 1
        }].hex,
{
    if tracks.len() > 0 {
        let n = tracks.len() as usize;
        let current = choose|current: Option<usize>| #[trigger]
            current_at(tracks, selected, current) && next->0 == tracks[stepped(
                current,
                tracks.len() as int,
                forward,
            )].hex;
        if current is Some {
            law_steps_go_to_the_neighbour(current->0, n);
            if selected is Some && 0 <= k < tracks.len() && tracks[k].hex@ == selected->0@ && (
            forall|j: int| 0 <= j < k ==> (#[trigger] tracks[j]).hex@ != selected->0@) {
                if current->0 < k {
                    assert(tracks[current->0 as int].hex@ != selected->0@);
                } else if k < current->0 {
                    assert(tracks[k].hex@ != selected->0@);
                }
            }
            assert(tracks[current->0 as int].hex@ == selected->0@);
        }
    }
}

} // verus!
