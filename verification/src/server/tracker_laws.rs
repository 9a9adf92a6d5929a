//! What holds of the held tracks whatever the polls bring.

use crate::number::{self, Number};
use crate::order;
use crate::server::domain::{ContactState, Flight, Snapshot};
use crate::server::tracker::{self, Fix, Health, Heard, Held, Leg, Reckoning, Track, Tracker};
use crate::span::{Moment, Span};
use vstd::prelude::*;

verus! {

/// Whether the flight at `i` is the last report of its address.
pub open spec fn is_last_report(flights: Seq<Flight>, i: int) -> bool {
    0 <= i < flights.len() && forall|j: int|
        i < j < flights.len() ==> (#[trigger] flights[j]).hex@ != flights[i].hex@
}

proof fn lemma_reported_covers(flights: Seq<Flight>, taken_at: Moment, i: int)
    requires
        is_last_report(flights, i),
    ensures
        tracker::reported(flights, taken_at).contains(
            Held { flight: flights[i], last_seen: taken_at, heard: Heard::Airborne },
        ),
    decreases flights.len(),
{
    let less = flights.drop_first();
    let rest = tracker::reported(less, taken_at);
    let all = tracker::reported(flights, taken_at);
    if i == 0 {
        assert(!tracker::mentions(less, flights[0].hex@)) by {
            assert forall|j: int| 0 <= j < less.len() implies (#[trigger] less[j]).hex@
                != flights[0].hex@ by {
                assert(less[j] == flights[j + 1]);
            }
        }
        assert(all[0].flight == flights[0]);
    } else {
        assert(less[i - 1] == flights[i]);
        assert forall|j: int| i - 1 < j < less.len() implies (#[trigger] less[j]).hex@ != less[i
            - 1].hex@ by {
            assert(less[j] == flights[j + 1]);
        }
        lemma_reported_covers(less, taken_at, i - 1);
        let k = choose|k: int|
            0 <= k < rest.len() && rest[k] == (Held {
                flight: flights[i],
                last_seen: taken_at,
                heard: Heard::Airborne,
            });
        if tracker::mentions(less, flights[0].hex@) {
            assert(all[k] == rest[k]);
        } else {
            assert(all[k + 1] == rest[k]);
        }
    }
}

/// A flight that a poll reports is in contact from that poll on, as it was last reported.
pub proof fn law_reported_flight_is_in_contact(
    held: Seq<Held>,
    snapshot: Snapshot,
    cap: Span,
    i: int,
)
    requires
        is_last_report(snapshot.flights@, i),
    ensures
        tracker::merged(held, snapshot, cap).contains(
            Held {
                flight: snapshot.flights@[i],
                last_seen: snapshot.taken_at,
                heard: Heard::Airborne,
            },
        ),
{
    lemma_reported_covers(snapshot.flights@, snapshot.taken_at, i);
    let front = tracker::reported(snapshot.flights@, snapshot.taken_at);
    let wanted = Held {
        flight: snapshot.flights@[i],
        last_seen: snapshot.taken_at,
        heard: Heard::Airborne,
    };
    let k = choose|k: int| 0 <= k < front.len() && front[k] == wanted;
    assert(tracker::merged(held, snapshot, cap)[k] == wanted);
}

proof fn lemma_kept_covers(held: Seq<Held>, snapshot: Snapshot, cap: Span, i: int)
    requires
        0 <= i < held.len(),
        held[i].survives(snapshot, cap),
    ensures
        tracker::kept(held, snapshot, cap).contains(held[i].omitted_by(snapshot)),
    decreases held.len(),
{
    let less = held.drop_first();
    let rest = tracker::kept(less, snapshot, cap);
    let all = tracker::kept(held, snapshot, cap);
    if i == 0 {
        assert(all[0] == held[0].omitted_by(snapshot));
    } else {
        assert(less[i - 1] == held[i]);
        lemma_kept_covers(less, snapshot, cap, i - 1);
        let k = choose|k: int| 0 <= k < rest.len() && rest[k] == held[i].omitted_by(snapshot);
        if held[0].survives(snapshot, cap) {
            assert(all[k + 1] == rest[k]);
        } else {
            assert(all[k] == rest[k]);
        }
    }
}

/// A held flight that a successful poll omits is not gone: until it outlives the cap it stays
/// held, with the report and the instant it was last seen by, and marked as lost.
pub proof fn law_omitted_flight_is_kept_as_lost(
    held: Seq<Held>,
    snapshot: Snapshot,
    cap: Span,
    i: int,
)
    requires
        0 <= i < held.len(),
        !snapshot.reports(held[i].flight.hex@),
        held[i].age(snapshot.taken_at) <= cap.nanos,
    ensures
        tracker::merged(held, snapshot, cap).contains(held[i].omitted_by(snapshot)),
        held[i].omitted_by(snapshot).flight == held[i].flight,
        held[i].omitted_by(snapshot).last_seen == held[i].last_seen,
        held[i].omitted_by(snapshot).heard != Heard::Airborne,
{
    lemma_kept_covers(held, snapshot, cap, i);
    let back = tracker::kept(held, snapshot, cap);
    let front = tracker::reported(snapshot.flights@, snapshot.taken_at);
    let k = choose|k: int| 0 <= k < back.len() && back[k] == held[i].omitted_by(snapshot);
    assert(tracker::merged(held, snapshot, cap)[front.len() + k] == back[k]);
}

/// Whatever is held after a poll was reported airborne by it or was held before: an address
/// that is only seen on the ground never appears.
pub proof fn law_nothing_else_is_held(held: Seq<Held>, snapshot: Snapshot, cap: Span, k: int)
    requires
        0 <= k < tracker::merged(held, snapshot, cap).len(),
    ensures
        ({
            let one = tracker::merged(held, snapshot, cap)[k];
            ||| one.heard == Heard::Airborne && snapshot.reports(one.flight.hex@)
            ||| exists|i: int|
                0 <= i < held.len() && !snapshot.reports(held[i].flight.hex@) && one == (
                #[trigger] held[i]).omitted_by(snapshot)
        }),
{
    let front = tracker::reported(snapshot.flights@, snapshot.taken_at);
    let back = tracker::kept(held, snapshot, cap);
    let one = tracker::merged(held, snapshot, cap)[k];
    if k < front.len() {
        tracker::lemma_reported_mentioned(snapshot.flights@, snapshot.taken_at);
        lemma_reported_airborne(snapshot.flights@, snapshot.taken_at, k);
        assert(tracker::mentions(snapshot.flights@, front[k].flight.hex@));
    } else {
        tracker::lemma_kept_from(held, snapshot, cap);
        assert(one == back[k - front.len()]);
        let i = choose|i: int|
            0 <= i < held.len() && (#[trigger] held[i]).survives(snapshot, cap) && back[k
                - front.len()] == held[i].omitted_by(snapshot);
        assert(one == held[i].omitted_by(snapshot));
    }
}

proof fn lemma_reported_airborne(flights: Seq<Flight>, taken_at: Moment, k: int)
    requires
        0 <= k < tracker::reported(flights, taken_at).len(),
    ensures
        tracker::reported(flights, taken_at)[k].heard == Heard::Airborne,
    decreases flights.len(),
{
    let less = flights.drop_first();
    if tracker::mentions(less, flights[0].hex@) {
        lemma_reported_airborne(less, taken_at, k);
    } else if k > 0 {
        lemma_reported_airborne(less, taken_at, k - 1);
    }
}

/// A track is landed only where it was held already and a poll reported it on the ground, and
/// it then stays landed until it is reported airborne again.
pub proof fn law_landed_only_when_tracked(held: Seq<Held>, snapshot: Snapshot, cap: Span, k: int)
    requires
        0 <= k < tracker::merged(held, snapshot, cap).len(),
        tracker::merged(held, snapshot, cap)[k].heard == Heard::OnGround,
    ensures
        exists|i: int|
            0 <= i < held.len() && (#[trigger] held[i]).flight == tracker::merged(
                held,
                snapshot,
                cap,
            )[k].flight && (snapshot.grounds(held[i].flight.hex@) || held[i].heard
                == Heard::OnGround),
{
    law_nothing_else_is_held(held, snapshot, cap, k);
    let one = tracker::merged(held, snapshot, cap)[k];
    let i = choose|i: int|
        0 <= i < held.len() && !snapshot.reports(held[i].flight.hex@) && one == (
        #[trigger] held[i]).omitted_by(snapshot);
    assert(held[i].flight == one.flight);
}

/// A lost track is frozen: its shown position is the reported one, at every instant.
pub proof fn law_lost_track_is_frozen(held: Held, now: Moment)
    requires
        held.heard != Heard::Airborne,
    ensures
        tracker::reckoning(&held, now).glide is None,
{
}

/// A track in contact is moved on from its own report by the report's whole age.
pub proof fn law_contact_track_glides_from_its_report(held: Held, now: Moment)
    requires
        held.heard == Heard::Airborne,
        held.flight.moving() is Some,
    ensures
        tracker::reckoning(&held, now).glide is Some,
        tracker::reckoning(&held, now).glide->0.duration == tracker::reckoning(&held, now).age,
        tracker::reckoning(&held, now).drift is None,
{
}

/// Where a track would have drifted to decides only why it is missing: geometry that differs
/// in nothing else makes the same track but for its state.
pub proof fn law_drift_decides_the_reason_only(r: Reckoning, a: Fix, b: Fix, radius_nm: Number)
    requires
        a == (Fix { drifted_nm: a.drifted_nm, ..b }),
    ensures
        tracker::track_of(r, a, radius_nm) == (Track {
            state: tracker::track_of(r, a, radius_nm).state,
            ..tracker::track_of(r, b, radius_nm)
        }),
        r.heard != Heard::Omitted ==> tracker::track_of(r, a, radius_nm) == tracker::track_of(
            r,
            b,
            radius_nm,
        ),
{
}

/// Only a track in contact ever paces.
pub proof fn law_lost_track_never_paces(
    tracks: Seq<Track>,
    relevance_distance_nm: Number,
    n: int,
    idx: Option<usize>,
)
    requires
        tracker::paces(tracks, relevance_distance_nm, n, idx),
        idx is Some,
    ensures
        tracks[idx->0 as int].state == ContactState::InContact,
{
}

/// There is one answer to which flight paces.
pub proof fn law_pacing_is_unique(
    tracks: Seq<Track>,
    relevance_distance_nm: Number,
    n: int,
    a: Option<usize>,
    b: Option<usize>,
)
    requires
        tracker::paces(tracks, relevance_distance_nm, n, a),
        tracker::paces(tracks, relevance_distance_nm, n, b),
    ensures
        a == b,
{
    if a is Some && b is Some {
        let i: int = a->0 as int;
        let j: int = b->0 as int;
        assert(tracks[i].cpa_key() <= tracks[j].cpa_key());
        assert(tracks[j].cpa_key() <= tracks[i].cpa_key());
    } else if a is Some {
        assert(tracks[a->0 as int].relevant(relevance_distance_nm));
    } else if b is Some {
        assert(tracks[b->0 as int].relevant(relevance_distance_nm));
    }
}

/// The tracks of a picture stand in the order of their distance from Home, so the first is the
/// nearest of all, in contact or not.
pub proof fn law_tracks_are_nearest_first(
    plan: Seq<Reckoning>,
    fixes: Seq<Fix>,
    radius_nm: Number,
    k: int,
    l: int,
)
    requires
        0 <= k <= l < fixes.len(),
    ensures
        tracker::tracks_of(plan, fixes, radius_nm)[k].distance_nm.total_rank()
            <= tracker::tracks_of(plan, fixes, radius_nm)[l].distance_nm.total_rank(),
{
    let keys = tracker::distance_keys(fixes);
    let sorted = order::sorted_indices(keys);
    order::lemma_first_sorted_is_stable(keys, keys.len());
    if k < l {
        assert(order::stands_before(keys, sorted[k], sorted[l]));
    }
    let a = sorted[k];
    let b = sorted[l];
    assert(0 <= a < fixes.len() && 0 <= b < fixes.len());
    assert(keys[a] == fixes[a].distance_nm.total_rank() as i64);
    assert(keys[b] == fixes[b].distance_nm.total_rank() as i64);
    assert(-0x8000_0000_0000_0000 <= fixes[a].distance_nm.total_rank() < 0x8000_0000_0000_0000);
    assert(-0x8000_0000_0000_0000 <= fixes[b].distance_nm.total_rank() < 0x8000_0000_0000_0000);
}

/// Every reckoning becomes a track: a picture leaves nothing out.
pub proof fn law_every_reckoning_becomes_a_track(
    plan: Seq<Reckoning>,
    fixes: Seq<Fix>,
    radius_nm: Number,
    i: int,
)
    requires
        0 <= i < fixes.len(),
    ensures
        tracker::tracks_of(plan, fixes, radius_nm).contains(
            tracker::track_of(plan[i], fixes[i], radius_nm),
        ),
{
    let keys = tracker::distance_keys(fixes);
    let sorted = order::sorted_indices(keys);
    order::lemma_first_sorted_is_stable(keys, keys.len());
    assert(sorted.contains(i));
    let k = choose|k: int| 0 <= k < sorted.len() && sorted[k] == i;
    assert(tracker::tracks_of(plan, fixes, radius_nm)[k] == tracker::track_of(
        plan[i],
        fixes[i],
        radius_nm,
    ));
}

/// What is reckoned at an instant is held, and no older than the cap.
pub proof fn law_reckonings_are_within_the_cap(
    held: Seq<Held>,
    now: Moment,
    cap: Span,
    n: nat,
    k: int,
)
    requires
        n <= held.len(),
        0 <= k < tracker::reckonings(held, now, cap, n).len(),
    ensures
        tracker::reckonings(held, now, cap, n)[k].age.nanos <= cap.nanos,
        exists|i: int|
            0 <= i < n && tracker::reckonings(held, now, cap, n)[k] == tracker::reckoning(
                &(#[trigger] held[i]),
                now,
            ),
    decreases n,
{
    let m = (n - 1) as nat;
    let before = tracker::reckonings(held, now, cap, m);
    if held[m as int].age(now) > cap.nanos || k < before.len() {
        law_reckonings_are_within_the_cap(held, now, cap, m, k);
        let i = choose|i: int|
            0 <= i < m && before[k] == tracker::reckoning(&(#[trigger] held[i]), now);
        assert(tracker::reckonings(held, now, cap, n)[k] == tracker::reckoning(&held[i], now));
    } else {
        assert(tracker::reckonings(held, now, cap, n)[k] == tracker::reckoning(
            &held[m as int],
            now,
        ));
    }
}

/// Every held track within the cap is reckoned.
pub proof fn law_held_track_within_the_cap_is_reckoned(
    held: Seq<Held>,
    now: Moment,
    cap: Span,
    n: nat,
    i: int,
)
    requires
        0 <= i < n <= held.len(),
        held[i].age(now) <= cap.nanos,
    ensures
        tracker::reckonings(held, now, cap, n).contains(tracker::reckoning(&held[i], now)),
    decreases n,
{
    let m = (n - 1) as nat;
    let before = tracker::reckonings(held, now, cap, m);
    let all = tracker::reckonings(held, now, cap, n);
    if i == m {
        assert(all.last() == tracker::reckoning(&held[i], now));
    } else {
        law_held_track_within_the_cap_is_reckoned(held, now, cap, m, i);
        let k = choose|k: int|
            0 <= k < before.len() && before[k] == tracker::reckoning(&held[i], now);
        assert(all[k] == before[k]);
    }
}

/// What a poll reports is what the next look shows: until its report outlives the cap, the
/// flight is reckoned from that report, in contact.
pub proof fn law_reported_flight_is_shown(
    held: Seq<Held>,
    snapshot: Snapshot,
    cap: Span,
    i: int,
    now: Moment,
    drifted_nm: Option<Number>,
    radius_nm: Number,
)
    requires
        is_last_report(snapshot.flights@, i),
        ({
            let one = Held {
                flight: snapshot.flights@[i],
                last_seen: snapshot.taken_at,
                heard: Heard::Airborne,
            };
            one.age(now) <= cap.nanos
        }),
    ensures
        ({
            let all = tracker::merged(held, snapshot, cap);
            let one = Held {
                flight: snapshot.flights@[i],
                last_seen: snapshot.taken_at,
                heard: Heard::Airborne,
            };
            &&& tracker::reckonings(all, now, cap, all.len()).contains(
                tracker::reckoning(&one, now),
            )
            &&& tracker::contact_state(one.heard, drifted_nm, radius_nm)
                == ContactState::InContact
        }),
{
    let all = tracker::merged(held, snapshot, cap);
    let one = Held {
        flight: snapshot.flights@[i],
        last_seen: snapshot.taken_at,
        heard: Heard::Airborne,
    };
    law_reported_flight_is_in_contact(held, snapshot, cap, i);
    let k = choose|k: int| 0 <= k < all.len() && all[k] == one;
    law_held_track_within_the_cap_is_reckoned(all, now, cap, all.len(), k);
}

/// What a poll omits is still shown, where it was last seen, lost and with a reason, until its
/// report outlives the cap.
pub proof fn law_omitted_flight_is_shown_as_lost(
    held: Seq<Held>,
    snapshot: Snapshot,
    cap: Span,
    i: int,
    now: Moment,
    drifted_nm: Option<Number>,
    radius_nm: Number,
)
    requires
        0 <= i < held.len(),
        !snapshot.reports(held[i].flight.hex@),
        snapshot.taken_at.nanos <= now.nanos,
        held[i].age(now) <= cap.nanos,
    ensures
        ({
            let all = tracker::merged(held, snapshot, cap);
            let one = held[i].omitted_by(snapshot);
            &&& tracker::reckonings(all, now, cap, all.len()).contains(
                tracker::reckoning(&one, now),
            )
            &&& tracker::reckoning(&one, now).glide is None
            &&& tracker::contact_state(one.heard, drifted_nm, radius_nm)
                != ContactState::InContact
        }),
{
    let all = tracker::merged(held, snapshot, cap);
    let one = held[i].omitted_by(snapshot);
    law_omitted_flight_is_kept_as_lost(held, snapshot, cap, i);
    let k = choose|k: int| 0 <= k < all.len() && all[k] == one;
    law_held_track_within_the_cap_is_reckoned(all, now, cap, all.len(), k);
}

/// A track that has outlived the cap stays dropped as time passes.
pub proof fn law_dropped_track_stays_dropped(held: Held, now: Moment, later: Moment, cap: Span)
    requires
        now.nanos <= later.nanos,
        held.age(now) > cap.nanos,
    ensures
        held.age(later) > cap.nanos,
{
}

/// While every poll fails nothing is lost: a track in contact keeps gliding under a stale
/// picture, for as long as the cap lies above the stale threshold.
pub proof fn law_outage_glides_under_a_stale_picture(tracker: Tracker, i: int, now: Moment)
    requires
        0 <= i < tracker.held().len(),
        tracker.held()[i].heard == Heard::Airborne,
        tracker.held()[i].flight.moving() is Some,
        tracker.held()[i].age(now) <= tracker.config().max_flight_age.nanos,
        tracker.polled() is Some,
        now.since_spec(tracker.polled()->0) > tracker.config().stale_after.nanos,
    ensures
        tracker.condition(now) is Stale,
        tracker.plan(now).contains(tracker::reckoning(&tracker.held()[i], now)),
        tracker::reckoning(&tracker.held()[i], now).glide is Some,
{
    law_held_track_within_the_cap_is_reckoned(
        tracker.held(),
        now,
        tracker.config().max_flight_age,
        tracker.held().len(),
        i,
    );
}

/// The age of a report advances one for one with the clock, whatever it was when the report
/// arrived: then it is the age that came with it, and from any instant to a later one it grows
/// by just the time between.
pub proof fn law_age_advances_with_the_clock(held: Held, t: Moment, u: Moment)
    requires
        held.last_seen.nanos <= t.nanos <= u.nanos,
        held.flight.reported_age.nanos + (u.nanos - held.last_seen.nanos) <= u128::MAX,
    ensures
        held.age(held.last_seen) == held.flight.reported_age.nanos,
        held.age(u) - held.age(t) == u.nanos - t.nanos,
{
}

/// Of two reports that arrived together, the one that was older by so much stays older by so
/// much.
pub proof fn law_older_reports_stay_older(a: Held, b: Held, now: Moment)
    requires
        a.last_seen == b.last_seen,
        a.last_seen.nanos <= now.nanos,
        a.flight.reported_age.nanos + (now.nanos - a.last_seen.nanos) <= u128::MAX,
        b.flight.reported_age.nanos + (now.nanos - b.last_seen.nanos) <= u128::MAX,
    ensures
        a.age(now) - b.age(now) == a.flight.reported_age.nanos - b.flight.reported_age.nanos,
{
}

/// A report that a poll brought is reckoned for the age it came with and the time since the
/// poll: for as long a flight in contact glides, along the track and at the groundspeed that
/// were reported.
pub proof fn law_glide_lasts_since_the_position_was_taken(flight: Flight, taken_at: Moment, now: Moment)
    requires
        taken_at.nanos <= now.nanos,
        flight.reported_age.nanos + (now.nanos - taken_at.nanos) <= u128::MAX,
        flight.track_deg is Some,
        flight.groundspeed_kt is Some,
        flight.groundspeed_kt->0.at_least_int(1),
    ensures
        ({
            let held = Held { flight, last_seen: taken_at, heard: Heard::Airborne };
            let r = tracker::reckoning(&held, now);
            &&& r.age.nanos == flight.reported_age.nanos + (now.nanos - taken_at.nanos)
            &&& r.glide is Some
            &&& r.glide->0.duration.nanos == flight.reported_age.nanos + (now.nanos
                - taken_at.nanos)
            &&& Some(r.glide->0.track_deg) == flight.track_deg
            &&& Some(r.glide->0.groundspeed_kt) == flight.groundspeed_kt
        }),
{
}

/// A reckoning is about the flight that is held and what was heard of it; its course is the
/// reported one, whether it is in contact or not.
pub proof fn law_reckoning_is_about_what_is_held(held: Held, now: Moment)
    requires
        held.last_seen.nanos <= now.nanos,
        held.flight.reported_age.nanos + (now.nanos - held.last_seen.nanos) <= u128::MAX,
    ensures
        ({
            let r = tracker::reckoning(&held, now);
            &&& *r.flight == held.flight
            &&& r.heard == held.heard
            &&& r.age.nanos == held.flight.reported_age.nanos + (now.nanos
                - held.last_seen.nanos)
            &&& r.velocity is Some <==> held.flight.track_deg is Some
                && held.flight.groundspeed_kt is Some
                && held.flight.groundspeed_kt->0.at_least_int(1)
            &&& r.velocity is Some ==> Some((r.velocity->0).0) == held.flight.track_deg && Some(
                (r.velocity->0).1,
            ) == held.flight.groundspeed_kt
        }),
{
}

/// A flight that stands still neither glides nor drifts; of one that moves, a reported one
/// glides, an omitted one only drifts, and a landed one does neither. Either way it moves along
/// its reported course for the age of its report.
pub proof fn law_what_is_heard_decides_how_a_track_moves(held: Held, now: Moment)
    ensures
        ({
            let r = tracker::reckoning(&held, now);
            let leg = Leg {
                track_deg: held.flight.track_deg->0,
                groundspeed_kt: held.flight.groundspeed_kt->0,
                duration: r.age,
            };
            let moves = held.flight.track_deg is Some && held.flight.groundspeed_kt is Some
                && held.flight.groundspeed_kt->0.at_least_int(1);
            &&& r.glide is Some <==> moves && held.heard == Heard::Airborne
            &&& r.drift is Some <==> moves && held.heard == Heard::Omitted
            &&& r.glide is Some ==> r.glide->0 == leg
            &&& r.drift is Some ==> r.drift->0 == leg
        }),
{
}

/// A track shows what its geometry says, about the flight that was reckoned and its age.
pub proof fn law_track_shows_its_fix(r: Reckoning, fix: Fix, radius_nm: Number)
    ensures
        ({
            let t = tracker::track_of(r, fix, radius_nm);
            &&& t.flight == r.flight
            &&& t.age == r.age
            &&& t.estimated.lat == fix.estimated.lat
            &&& t.estimated.lon == fix.estimated.lon
            &&& t.distance_nm == fix.distance_nm
            &&& t.bearing_from_home == fix.bearing_from_home
            &&& t.cpa == fix.cpa
            &&& t.age_s == fix.age_s
        }),
{
}

/// A reported flight is in contact and a landed one landed, wherever they are; an omitted one
/// has left the scope exactly where it would have drifted farther out than the radius, and is
/// otherwise lost.
pub proof fn law_state_tells_why(r: Reckoning, fix: Fix, radius_nm: Number)
    requires
        radius_nm.finite(),
        fix.drifted_nm is Some ==> fix.drifted_nm->0.finite(),
    ensures
        ({
            let state = tracker::track_of(r, fix, radius_nm).state;
            let outside = fix.drifted_nm is Some && fix.drifted_nm->0.units() > radius_nm.units();
            &&& state == ContactState::InContact <==> r.heard == Heard::Airborne
            &&& state == ContactState::Landed <==> r.heard == Heard::OnGround
            &&& state == ContactState::LeftScope <==> r.heard == Heard::Omitted && outside
            &&& state == ContactState::LostContact <==> r.heard == Heard::Omitted && !outside
        }),
{
    if fix.drifted_nm is Some {
        number::lemma_rank_orders_values(radius_nm, fix.drifted_nm->0);
    }
}

/// Where the distances are numbers, no track stands before a nearer one.
pub proof fn law_no_track_stands_before_a_nearer_one(
    plan: Seq<Reckoning>,
    fixes: Seq<Fix>,
    radius_nm: Number,
    k: int,
    l: int,
)
    requires
        0 <= k < l < fixes.len(),
        tracker::tracks_of(plan, fixes, radius_nm)[k].distance_nm.finite(),
        tracker::tracks_of(plan, fixes, radius_nm)[l].distance_nm.finite(),
    ensures
        tracker::tracks_of(plan, fixes, radius_nm)[k].distance_nm.units() <= tracker::tracks_of(
            plan,
            fixes,
            radius_nm,
        )[l].distance_nm.units(),
        tracker::tracks_of(plan, fixes, radius_nm).len() == fixes.len(),
{
    law_tracks_are_nearest_first(plan, fixes, radius_nm, k, l);
    number::law_total_order_tells_patterns_apart(
        tracker::tracks_of(plan, fixes, radius_nm)[l].distance_nm,
        tracker::tracks_of(plan, fixes, radius_nm)[k].distance_nm,
    );
}

/// Whether a track may pace, by its own values: in contact, not yet past its closest pass, and
/// passing no farther out than the relevance distance.
pub open spec fn may_pace(t: Track, relevance_distance_nm: Number) -> bool {
    &&& t.state == ContactState::InContact
    &&& t.cpa is Some
    &&& t.cpa->0.time_to_cpa_s.units() >= 0
    &&& t.cpa->0.cpa_distance_nm.units() <= relevance_distance_nm.units()
}

/// The flight that paces may do so, and none that may passes sooner; where none paces, none
/// may.
pub proof fn law_pacing_flight_passes_soonest(
    tracks: Seq<Track>,
    relevance_distance_nm: Number,
    n: int,
    idx: Option<usize>,
    j: int,
)
    requires
        tracker::paces(tracks, relevance_distance_nm, n, idx),
        relevance_distance_nm.finite(),
        0 <= n <= tracks.len(),
        forall|i: int|
            0 <= i < n && (#[trigger] tracks[i]).cpa is Some ==> tracks[i].cpa->0.time_to_cpa_s.finite()
                && tracks[i].cpa->0.cpa_distance_nm.finite(),
        0 <= j < n,
    ensures
        idx is None ==> !may_pace(tracks[j], relevance_distance_nm),
        idx is Some ==> idx->0 < n && may_pace(tracks[idx->0 as int], relevance_distance_nm),
        idx is Some && may_pace(tracks[j], relevance_distance_nm)
            ==> tracks[idx->0 as int].cpa->0.time_to_cpa_s.units()
            <= tracks[j].cpa->0.time_to_cpa_s.units(),
{
    assert(0 * number::one() == 0) by (nonlinear_arith);
    let one = tracks[j];
    if one.cpa is Some {
        number::lemma_rank_orders_values(one.cpa->0.cpa_distance_nm, relevance_distance_nm);
        number::lemma_rank_orders_values(relevance_distance_nm, one.cpa->0.cpa_distance_nm);
        assert(may_pace(one, relevance_distance_nm) ==> one.relevant(relevance_distance_nm));
    }
    if idx is Some {
        let best = tracks[idx->0 as int];
        assert(best.cpa is Some);
        number::lemma_rank_orders_values(best.cpa->0.cpa_distance_nm, relevance_distance_nm);
        number::lemma_rank_orders_values(relevance_distance_nm, best.cpa->0.cpa_distance_nm);
        if may_pace(one, relevance_distance_nm) {
            number::law_total_order_tells_patterns_apart(
                one.cpa->0.time_to_cpa_s,
                best.cpa->0.time_to_cpa_s,
            );
            assert(best.cpa_key() <= one.cpa_key());
        }
    }
}

/// Without a successful poll there is no data; after one the data is live until more time has
/// passed since than the stale threshold, and stale from then on. What failed last goes with
/// data that is not live.
pub proof fn law_health_is_the_age_of_the_last_poll(tracker: Tracker, now: Moment)
    requires
        tracker.polled() is Some ==> tracker.polled()->0.nanos <= now.nanos,
    ensures
        tracker.condition(now) is NoData <==> tracker.polled() is None,
        tracker.condition(now) is Live <==> tracker.polled() is Some && now.nanos
            - tracker.polled()->0.nanos <= tracker.config().stale_after.nanos,
        tracker.condition(now) is Stale <==> tracker.polled() is Some && now.nanos
            - tracker.polled()->0.nanos > tracker.config().stale_after.nanos,
        match tracker.condition(now) {
            Health::NoData { last_error } => last_error == tracker.failure(),
            Health::Stale { last_error } => last_error == tracker.failure(),
            Health::Live => true,
        },
{
}

/// What a poll leaves of a track that it did not report airborne: the report and the instant it
/// was last seen stay, and it is on the ground exactly where this poll or an earlier one said so.
pub proof fn law_omission_keeps_the_report(held: Held, snapshot: Snapshot)
    ensures
        held.omitted_by(snapshot).flight == held.flight,
        held.omitted_by(snapshot).last_seen == held.last_seen,
        held.omitted_by(snapshot).heard == Heard::OnGround <==> held.heard == Heard::OnGround
            || exists|i: int|
                0 <= i < snapshot.on_ground@.len() && (#[trigger] snapshot.on_ground@[i])@
                    == held.flight.hex@,
        held.omitted_by(snapshot).heard != Heard::Airborne,
{
}

proof fn lemma_reported_from(flights: Seq<Flight>, taken_at: Moment, k: int) -> (i: int)
    requires
        0 <= k < tracker::reported(flights, taken_at).len(),
    ensures
        is_last_report(flights, i),
        tracker::reported(flights, taken_at)[k] == (Held {
            flight: flights[i],
            last_seen: taken_at,
            heard: Heard::Airborne,
        }),
    decreases flights.len(),
{
    let less = flights.drop_first();
    let rest = tracker::reported(less, taken_at);
    if !tracker::mentions(less, flights[0].hex@) && k == 0 {
        assert forall|j: int| 0 < j < flights.len() implies (#[trigger] flights[j]).hex@
            != flights[0].hex@ by {
            assert(less[j - 1] == flights[j]);
            assert(less[j - 1].hex@ != flights[0].hex@);
        }
        0
    } else {
        let at = if tracker::mentions(less, flights[0].hex@) {
            k
        } else {
            k - 1
        };
        let i = lemma_reported_from(less, taken_at, at);
        assert(flights[i + 1] == less[i]);
        assert forall|j: int| i + 1 < j < flights.len() implies (#[trigger] flights[j]).hex@
            != flights[i + 1].hex@ by {
            assert(less[j - 1] == flights[j]);
        }
        i + 1
    }
}

/// Whatever is held after a poll is either the last report that the poll has of an address, as
/// it is, or was held before, was not reported, and had not outlived the cap.
pub proof fn law_held_is_reported_or_not_outlived(
    held: Seq<Held>,
    snapshot: Snapshot,
    cap: Span,
    k: int,
)
    requires
        0 <= k < tracker::merged(held, snapshot, cap).len(),
    ensures
        ({
            let one = tracker::merged(held, snapshot, cap)[k];
            ||| exists|i: int| #[trigger]
                is_last_report(snapshot.flights@, i) && one == (Held {
                    flight: snapshot.flights@[i],
                    last_seen: snapshot.taken_at,
                    heard: Heard::Airborne,
                })
            ||| exists|i: int|
                0 <= i < held.len() && one == (#[trigger] held[i]).omitted_by(snapshot)
                    && held[i].age(snapshot.taken_at) <= cap.nanos && forall|j: int|
                    0 <= j < snapshot.flights@.len() ==> (#[trigger] snapshot.flights@[j]).hex@
                        != held[i].flight.hex@
        }),
{
    let front = tracker::reported(snapshot.flights@, snapshot.taken_at);
    let back = tracker::kept(held, snapshot, cap);
    if k < front.len() {
        let i = lemma_reported_from(snapshot.flights@, snapshot.taken_at, k);
        assert(is_last_report(snapshot.flights@, i));
    } else {
        tracker::lemma_kept_from(held, snapshot, cap);
        let one = tracker::merged(held, snapshot, cap)[k];
        assert(one == back[k - front.len()]);
        let i = choose|i: int|
            0 <= i < held.len() && (#[trigger] held[i]).survives(snapshot, cap) && back[k
                - front.len()] == held[i].omitted_by(snapshot);
        assert(!snapshot.reports(held[i].flight.hex@));
        assert(one == held[i].omitted_by(snapshot));
    }
}

/// Picking by an index gives the entry there, and nothing without an index or past the end.
pub proof fn law_picking_gives_the_entry<T>(s: Seq<T>, i: usize)
    ensures
        i < s.len() ==> tracker::pick(s, Some(i)) == Some(s[i as int]),
        i >= s.len() ==> tracker::pick(s, Some(i)) is None,
        tracker::pick(s, None) is None,
{
}

/// A tracker goes by its own limits: it reckons no report older than its cap, and what it shows
/// has left the scope where it would have drifted beyond the radius of its own Search area.
pub proof fn law_tracker_goes_by_its_own_limits(
    tracker: Tracker,
    now: Moment,
    fixes: Seq<Fix>,
    k: int,
) -> (a: int)
    requires
        fixes.len() == tracker.plan(now).len(),
        0 <= k < fixes.len(),
        tracker.search_area().radius_nm.finite(),
        forall|i: int|
            0 <= i < fixes.len() && (#[trigger] fixes[i]).drifted_nm is Some
                ==> fixes[i].drifted_nm->0.finite(),
    ensures
        0 <= a < fixes.len(),
        tracker.tracks(now, fixes)[k].flight == tracker.plan(now)[a].flight,
        tracker.tracks(now, fixes)[k].distance_nm == fixes[a].distance_nm,
        tracker.plan(now)[a].age.nanos <= tracker.config().max_flight_age.nanos,
        tracker.tracks(now, fixes)[k].state == ContactState::LeftScope <==> tracker.plan(
            now,
        )[a].heard == Heard::Omitted && fixes[a].drifted_nm is Some
            && fixes[a].drifted_nm->0.units() > tracker.search_area().radius_nm.units(),
{
    let keys = tracker::distance_keys(fixes);
    let sorted = order::sorted_indices(keys);
    order::lemma_first_sorted_is_stable(keys, keys.len());
    let a = sorted[k];
    let radius_nm = tracker.search_area().radius_nm;
    law_state_tells_why(tracker.plan(now)[a], fixes[a], radius_nm);
    law_reckonings_are_within_the_cap(
        tracker.held(),
        now,
        tracker.config().max_flight_age,
        tracker.held().len(),
        a,
    );
    a
}

/// Equally distant tracks keep the order of their reckonings.
pub proof fn law_equally_distant_tracks_keep_their_order(
    plan: Seq<Reckoning>,
    fixes: Seq<Fix>,
    radius_nm: Number,
    a: int,
    b: int,
) -> (at: (int, int))
    requires
        0 <= a < b < fixes.len(),
        fixes[a].distance_nm == fixes[b].distance_nm,
    ensures
        0 <= at.0 < at.1 < fixes.len(),
        tracker::tracks_of(plan, fixes, radius_nm)[at.0] == tracker::track_of(
            plan[a],
            fixes[a],
            radius_nm,
        ),
        tracker::tracks_of(plan, fixes, radius_nm)[at.1] == tracker::track_of(
            plan[b],
            fixes[b],
            radius_nm,
        ),
{
    let keys = tracker::distance_keys(fixes);
    let sorted = order::sorted_indices(keys);
    order::lemma_first_sorted_is_stable(keys, keys.len());
    assert(sorted.contains(a) && sorted.contains(b));
    let k = choose|k: int| 0 <= k < sorted.len() && sorted[k] == a;
    let l = choose|l: int| 0 <= l < sorted.len() && sorted[l] == b;
    if l < k {
        assert(order::stands_before(keys, sorted[l], sorted[k]));
    }
    (k, l)
}

} // verus!
