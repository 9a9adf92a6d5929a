//! The held tracks, and what they say of the airspace at an instant.
//!
//! Polls are merged into the held tracks: a flight that a poll reports is in contact; one that
//! a successful poll omits is lost, frozen where it was last seen, and held until it outlives
//! the staleness cap. Where a track stands at an instant is spherical geometry, which is done
//! outside: [`Tracker::reckonings_at`] says what to compute, and the [`Fix`] of each
//! reckoning comes back in the same order.

use crate::number::Number;
use crate::order;
use crate::server::domain::{ContactState, Cpa, Flight, LatLon, SearchArea, Snapshot};
use crate::span::{self, Moment, Span};
use vstd::prelude::*;

verus! {

/// What the tracker goes by beside the Search area.
#[derive(Clone, Copy, Debug, PartialEq, Eq, Structural)]
pub struct TrackerConfig {
    /// The farthest CPA that still counts for pacing.
    pub relevance_distance_nm: Number,
    /// Beyond this age of the last poll the picture is stale.
    pub stale_after: Span,
    /// Beyond this age a track is dropped.
    pub max_flight_age: Span,
}

/// What the polls have said of a held track.
#[derive(Clone, Copy, Debug, PartialEq, Eq, Structural)]
pub enum Heard {
    /// The latest successful poll reported it airborne.
    Airborne,
    /// Not heard airborne since a poll reported it on the ground.
    OnGround,
    /// The latest successful poll omitted it.
    Omitted,
}

/// A track as it is held between polls.
pub struct Held {
    /// The flight as last reported.
    pub flight: Flight,
    /// When the report arrived.
    pub last_seen: Moment,
    pub heard: Heard,
}

impl Held {
    /// The age of the report at `now`, in nanoseconds.
    pub open spec fn age(self, now: Moment) -> int {
        span::shorter(
            self.flight.reported_age.nanos + now.since_spec(self.last_seen),
            u128::MAX as int,
        )
    }

    fn age_at(&self, now: &Moment) -> (r: Span)
        ensures
            r.nanos == self.age(*now),
    {
        self.flight.reported_age.plus(&now.since(&self.last_seen))
    }

    /// This track after a successful poll that did not report it airborne.
    pub open spec fn omitted_by(self, snapshot: Snapshot) -> Held {
        Held {
            flight: self.flight,
            last_seen: self.last_seen,
            heard: if snapshot.grounds(self.flight.hex@) || self.heard == Heard::OnGround {
                Heard::OnGround
            } else {
                Heard::Omitted
            },
        }
    }

    /// Whether a track outlives a successful poll that did not report it airborne.
    pub open spec fn survives(self, snapshot: Snapshot, cap: Span) -> bool {
        !snapshot.reports(self.flight.hex@) && self.age(snapshot.taken_at) <= cap.nanos
    }
}

/// Whether one of `flights` has this address.
pub open spec fn mentions(flights: Seq<Flight>, hex: Seq<char>) -> bool {
    exists|i: int| 0 <= i < flights.len() && #[trigger] flights[i].hex@ == hex
}

/// The tracks that a poll's reports become, in their order; of several reports with one
/// address the last counts.
pub open spec fn reported(flights: Seq<Flight>, taken_at: Moment) -> Seq<Held>
    decreases flights.len(),
{
    if flights.len() == 0 {
        Seq::empty()
    } else {
        let rest = reported(flights.drop_first(), taken_at);
        if mentions(flights.drop_first(), flights[0].hex@) {
            rest
        } else {
            seq![Held { flight: flights[0], last_seen: taken_at, heard: Heard::Airborne }] + rest
        }
    }
}

/// The tracks that stay held though a successful poll did not report them airborne.
pub open spec fn kept(held: Seq<Held>, snapshot: Snapshot, cap: Span) -> Seq<Held>
    decreases held.len(),
{
    if held.len() == 0 {
        Seq::empty()
    } else {
        let rest = kept(held.drop_first(), snapshot, cap);
        if held[0].survives(snapshot, cap) {
            seq![held[0].omitted_by(snapshot)] + rest
        } else {
            rest
        }
    }
}

/// The held tracks after a successful poll.
pub open spec fn merged(held: Seq<Held>, snapshot: Snapshot, cap: Span) -> Seq<Held> {
    reported(snapshot.flights@, snapshot.taken_at) + kept(held, snapshot, cap)
}

/// No two held tracks have one address.
pub open spec fn distinct(held: Seq<Held>) -> bool {
    forall|i: int, j: int|
        0 <= i < j < held.len() ==> (#[trigger] held[i]).flight.hex@ != (
        #[trigger] held[j]).flight.hex@
}

/// Travel along a track at a groundspeed for a length of time.
#[derive(Clone, Copy, Debug, PartialEq, Eq, Structural)]
pub struct Leg {
    pub track_deg: Number,
    pub groundspeed_kt: Number,
    pub duration: Span,
}

/// What to work out about one track at an instant.
pub struct Reckoning<'a> {
    pub flight: &'a Flight,
    /// The age of the report.
    pub age: Span,
    pub heard: Heard,
    /// The course to estimate the CPA by; none for a flight that stands still.
    pub velocity: Option<(Number, Number)>,
    /// How far the shown position has moved on from the reported one; none where it is held.
    pub glide: Option<Leg>,
    /// Where a lost track would have got to; this only decides why it is missing.
    pub drift: Option<Leg>,
}

/// The geometry of one reckoning, as worked out from Home.
#[derive(Clone, Copy, Debug, PartialEq, Eq, Structural)]
pub struct Fix {
    /// The reported position, moved along [`Reckoning::glide`].
    pub estimated: LatLon,
    /// Ground distance from Home to it.
    pub distance_nm: Number,
    /// Bearing from Home to it.
    pub bearing_from_home: Number,
    /// Closest approach from it, along [`Reckoning::velocity`].
    pub cpa: Option<Cpa>,
    /// Ground distance from Home of the reported position moved along [`Reckoning::drift`].
    pub drifted_nm: Option<Number>,
    /// [`Reckoning::age`] in seconds.
    pub age_s: Number,
}

/// A flight as estimated at an instant.
pub struct Track<'a> {
    pub flight: &'a Flight,
    /// The position to show.
    pub estimated: LatLon,
    /// Ground distance from Home, in nautical miles.
    pub distance_nm: Number,
    /// Bearing from Home, degrees from true north.
    pub bearing_from_home: Number,
    /// Closest approach; none for a flight that stands still.
    pub cpa: Option<Cpa>,
    /// The age of the report.
    pub age: Span,
    /// The same in seconds.
    pub age_s: Number,
    pub state: ContactState,
}

impl<'a> Track<'a> {
    /// In contact, approaching, and passing within the relevance distance.
    pub open spec fn relevant(self, relevance_distance_nm: Number) -> bool {
        &&& self.state == ContactState::InContact
        &&& self.cpa is Some
        &&& self.cpa->0.approaching()
        &&& self.cpa->0.cpa_distance_nm.at_most(relevance_distance_nm)
    }

    /// Whether this flight may set the poll cadence.
    pub fn is_relevant(&self, relevance_distance_nm: &Number) -> (r: bool)
        ensures
            r == self.relevant(*relevance_distance_nm),
    {
        match (self.state, self.cpa) {
            (ContactState::InContact, Some(c)) => c.is_approaching()
                && c.cpa_distance_nm.is_at_most(relevance_distance_nm),
            _ => false,
        }
    }

    /// The key that pacing goes by.
    pub open spec fn cpa_key(self) -> int {
        self.cpa->0.time_to_cpa_s.total_rank()
    }
}

/// Whether the tracker has a usable picture.
#[derive(Debug)]
pub enum Health {
    /// A fresh enough poll is in hand.
    Live,
    /// The last successful poll is too old.
    Stale { last_error: Option<String> },
    /// No poll has succeeded yet.
    NoData { last_error: Option<String> },
}

/// Everything the tracker says of one instant, from a single reckoning.
pub struct Picture<'a> {
    /// All tracks, nearest first.
    pub tracks: Vec<Track<'a>>,
    pub health: Health,
    pub nearest_idx: Option<usize>,
    pub pacing_idx: Option<usize>,
}

/// Picking out an entry, where the index names one.
pub open spec fn pick<T>(s: Seq<T>, idx: Option<usize>) -> Option<T> {
    match idx {
        Some(i) => if i < s.len() {
            Some(s[i as int])
        } else {
            None
        },
        None => None,
    }
}

impl<'a> Picture<'a> {
    /// The nearest flight.
    pub fn nearest(&self) -> (r: Option<&Track<'a>>)
        ensures
            r is Some <==> pick(self.tracks@, self.nearest_idx) is Some,
            r is Some ==> *r->0 == pick(self.tracks@, self.nearest_idx)->0,
    {
        match self.nearest_idx {
            Some(i) => if i < self.tracks.len() {
                Some(&self.tracks[i])
            } else {
                None
            },
            None => None,
        }
    }

    /// The flight that sets the poll cadence.
    pub fn pacing(&self) -> (r: Option<&Track<'a>>)
        ensures
            r is Some <==> pick(self.tracks@, self.pacing_idx) is Some,
            r is Some ==> *r->0 == pick(self.tracks@, self.pacing_idx)->0,
    {
        match self.pacing_idx {
            Some(i) => if i < self.tracks.len() {
                Some(&self.tracks[i])
            } else {
                None
            },
            None => None,
        }
    }
}

/// Whether `idx` names the flight that paces among the first `n`: of the relevant ones, the
/// one whose CPA is soonest, the first of several equally soon.
pub open spec fn paces(tracks: Seq<Track>, relevance_distance_nm: Number, n: int, idx: Option<usize>) -> bool {
    match idx {
        None => forall|j: int|
            0 <= j < n ==> !(#[trigger] tracks[j]).relevant(relevance_distance_nm),
        Some(i) => {
            &&& i < n
            &&& tracks[i as int].relevant(relevance_distance_nm)
            &&& forall|j: int|
                0 <= j < n && (#[trigger] tracks[j]).relevant(relevance_distance_nm)
                    ==> tracks[i as int].cpa_key() <= tracks[j].cpa_key() && (j < i
                    ==> tracks[i as int].cpa_key() < tracks[j].cpa_key())
        },
    }
}

/// The index of the flight that sets the poll cadence.
pub fn pacing_index(tracks: &Vec<Track>, relevance_distance_nm: &Number) -> (r: Option<usize>)
    ensures
        paces(tracks@, *relevance_distance_nm, tracks@.len() as int, r),
{
    let mut best: Option<usize> = None;
    let mut i: usize = 0;
    while i < tracks.len()
        invariant
            i <= tracks.len(),
            paces(tracks@, *relevance_distance_nm, i as int, best),
        decreases tracks.len() - i,
    {
        if tracks[i].is_relevant(relevance_distance_nm) {
            match best {
                None => {
                    best = Some(i);
                },
                Some(b) => {
                    if let (Some(new), Some(old)) = (tracks[i].cpa, tracks[b].cpa) {
                        if new.time_to_cpa_s.key() < old.time_to_cpa_s.key() {
                            best = Some(i);
                        }
                    }
                },
            }
        }
        i = i + 1;
    }
    best
}

/// What to work out about a held track at an instant: one in contact glides on along its
/// last course, a lost one stays where it was seen.
pub open spec fn reckoning<'a>(held: &'a Held, now: Moment) -> Reckoning<'a> {
    let age = Span { nanos: held.age(now) as u128 };
    let leg = match held.flight.moving() {
        Some((track_deg, groundspeed_kt)) => Some(
            Leg { track_deg, groundspeed_kt, duration: age },
        ),
        None => None,
    };
    Reckoning {
        flight: &held.flight,
        age,
        heard: held.heard,
        velocity: held.flight.moving(),
        glide: if held.heard == Heard::Airborne {
            leg
        } else {
            None
        },
        drift: if held.heard == Heard::Omitted {
            leg
        } else {
            None
        },
    }
}

/// The reckonings of the first `n` held tracks at an instant; one past the cap is dropped.
pub open spec fn reckonings<'a>(held: Seq<Held>, now: Moment, cap: Span, n: nat) -> Seq<Reckoning<'a>>
    decreases n,
{
    if n == 0 {
        Seq::empty()
    } else {
        let before = reckonings(held, now, cap, (n - 1) as nat);
        if held[n - 1].age(now) > cap.nanos {
            before
        } else {
            before.push(reckoning(&held[n - 1], now))
        }
    }
}

/// Why a track is missing, or that it is not.
pub open spec fn contact_state(heard: Heard, drifted_nm: Option<Number>, radius_nm: Number) -> ContactState {
    match heard {
        Heard::Airborne => ContactState::InContact,
        Heard::OnGround => ContactState::Landed,
        Heard::Omitted => if drifted_nm is Some && radius_nm.below(drifted_nm->0) {
            ContactState::LeftScope
        } else {
            ContactState::LostContact
        },
    }
}

/// The track that a reckoning and its geometry make.
pub open spec fn track_of<'a>(r: Reckoning<'a>, fix: Fix, radius_nm: Number) -> Track<'a> {
    Track {
        flight: r.flight,
        estimated: fix.estimated,
        distance_nm: fix.distance_nm,
        bearing_from_home: fix.bearing_from_home,
        cpa: fix.cpa,
        age: r.age,
        age_s: fix.age_s,
        state: contact_state(r.heard, fix.drifted_nm, radius_nm),
    }
}

/// The keys that the tracks are ordered by.
pub open spec fn distance_keys(fixes: Seq<Fix>) -> Seq<i64> {
    Seq::new(fixes.len(), |i: int| fixes[i].distance_nm.total_rank() as i64)
}

/// The tracks that reckonings and their geometry make, nearest first; equally distant ones
/// keep the order of the reckonings.
pub open spec fn tracks_of<'a>(plan: Seq<Reckoning<'a>>, fixes: Seq<Fix>, radius_nm: Number) -> Seq<Track<'a>> {
    let order = order::sorted_indices(distance_keys(fixes));
    Seq::new(fixes.len(), |k: int| track_of(plan[order[k]], fixes[order[k]], radius_nm))
}

/// Holds the tracks between polls.
pub struct Tracker {
    area: SearchArea,
    cfg: TrackerConfig,
    held: Vec<Held>,
    last_poll: Option<Moment>,
    last_error: Option<String>,
}

impl Tracker {
    pub closed spec fn search_area(self) -> SearchArea {
        self.area
    }

    pub closed spec fn config(self) -> TrackerConfig {
        self.cfg
    }

    /// The held tracks.
    pub closed spec fn held(self) -> Seq<Held> {
        self.held@
    }

    /// When the last successful poll was taken.
    pub closed spec fn polled(self) -> Option<Moment> {
        self.last_poll
    }

    /// The failure of the latest poll, where it failed.
    pub closed spec fn failure(self) -> Option<String> {
        self.last_error
    }

    /// What there is to work out at an instant.
    pub open spec fn plan<'a>(self, now: Moment) -> Seq<Reckoning<'a>> {
        reckonings(self.held(), now, self.config().max_flight_age, self.held().len())
    }

    /// The tracks at an instant, given their geometry.
    pub open spec fn tracks<'a>(self, now: Moment, fixes: Seq<Fix>) -> Seq<Track<'a>> {
        tracks_of(self.plan(now), fixes, self.search_area().radius_nm)
    }

    /// The state of the data at an instant.
    pub open spec fn condition(self, now: Moment) -> Health {
        match self.polled() {
            None => Health::NoData { last_error: self.failure() },
            Some(at) => if now.since_spec(at) > self.config().stale_after.nanos {
                Health::Stale { last_error: self.failure() }
            } else {
                Health::Live
            },
        }
    }

    /// A tracker that holds nothing yet.
    pub fn new(area: SearchArea, cfg: TrackerConfig) -> (r: Tracker)
        ensures
            r.search_area() == area,
            r.config() == cfg,
            r.held() == Seq::<Held>::empty(),
            r.polled() is None,
            r.failure() is None,
    {
        Tracker { area, cfg, held: Vec::new(), last_poll: None, last_error: None }
    }

    /// Merges a successful poll into the held tracks and forgets the last failure.
    pub fn ingest(&mut self, snapshot: Snapshot)
        ensures
            final(self).held() == merged(
                old(self).held(),
                snapshot,
                old(self).config().max_flight_age,
            ),
            final(self).polled() == Some(snapshot.taken_at),
            final(self).failure() is None,
            final(self).search_area() == old(self).search_area(),
            final(self).config() == old(self).config(),
            distinct(old(self).held()) ==> distinct(final(self).held()),
    {
        let ghost before = self.held@;
        let cap = self.cfg.max_flight_age;
        let mut lost: Vec<Held> = Vec::new();
        let mut rest: Vec<Held> = Vec::new();
        std::mem::swap(&mut self.held, &mut rest);
        assert(lost@ + kept(rest@, snapshot, cap) =~= kept(before, snapshot, cap));
        while rest.len() > 0
            invariant
                lost@ + kept(rest@, snapshot, cap) == kept(before, snapshot, cap),
            decreases rest.len(),
        {
            let ghost whole = rest@;
            let ghost out = lost@;
            let mut one = rest.remove(0);
            assert(rest@ =~= whole.drop_first());
            if !snapshot.has_flight(&one.flight.hex) && one.age_at(&snapshot.taken_at).nanos
                <= cap.nanos {
                let heard = if snapshot.has_ground(&one.flight.hex) || one.heard == Heard::OnGround {
                    Heard::OnGround
                } else {
                    Heard::Omitted
                };
                one.heard = heard;
                lost.push(one);
                assert(lost@ + kept(rest@, snapshot, cap) =~= out + kept(whole, snapshot, cap));
            }
        }
        assert(lost@ =~= kept(before, snapshot, cap));
        let taken_at = snapshot.taken_at;
        let ghost poll = snapshot;
        let mut flights = snapshot.flights;
        let mut held: Vec<Held> = Vec::new();
        assert(held@ + reported(flights@, taken_at) =~= reported(poll.flights@, taken_at));
        while flights.len() > 0
            invariant
                held@ + reported(flights@, taken_at) == reported(poll.flights@, taken_at),
            decreases flights.len(),
        {
            let ghost whole = flights@;
            let ghost out = held@;
            let flight = flights.remove(0);
            assert(flights@ =~= whole.drop_first());
            if !mentioned(&flights, &flight.hex) {
                held.push(Held { flight, last_seen: taken_at, heard: Heard::Airborne });
                assert(held@ + reported(flights@, taken_at) =~= out + reported(whole, taken_at));
            }
        }
        assert(held@ =~= reported(poll.flights@, taken_at));
        held.append(&mut lost);
        self.held = held;
        self.last_poll = Some(taken_at);
        self.last_error = None;
        proof {
            if distinct(before) {
                lemma_merged_distinct(before, poll, cap);
            }
        }
    }

    /// Notes that a poll failed. The held tracks stay as they are.
    pub fn note_error(&mut self, message: String)
        ensures
            final(self).failure() == Some(message),
            final(self).held() == old(self).held(),
            final(self).polled() == old(self).polled(),
            final(self).search_area() == old(self).search_area(),
            final(self).config() == old(self).config(),
    {
        self.last_error = Some(message);
    }

    /// The age of the last successful poll.
    pub fn snapshot_age(&self, now: &Moment) -> (r: Option<Span>)
        ensures
            r is Some <==> self.polled() is Some,
            r is Some ==> r->0.nanos == now.since_spec(self.polled()->0),
    {
        match &self.last_poll {
            Some(at) => Some(now.since(at)),
            None => None,
        }
    }

    /// The state of the data.
    pub fn health(&self, now: &Moment) -> (r: Health)
        ensures
            r == self.condition(*now),
    {
        match self.snapshot_age(now) {
            None => Health::NoData { last_error: self.last_error.clone() },
            Some(age) => if age.nanos > self.cfg.stale_after.nanos {
                Health::Stale { last_error: self.last_error.clone() }
            } else {
                Health::Live
            },
        }
    }

    /// What to work out about each track at `now`.
    pub fn reckonings_at(&self, now: &Moment) -> (r: Vec<Reckoning<'_>>)
        ensures
            r@ == self.plan(*now),
    {
        let mut plan: Vec<Reckoning<'_>> = Vec::new();
        let mut i: usize = 0;
        while i < self.held.len()
            invariant
                i <= self.held.len(),
                plan@ == reckonings(self.held@, *now, self.cfg.max_flight_age, i as nat),
            decreases self.held.len() - i,
        {
            let one = &self.held[i];
            let age = one.age_at(now);
            if age.nanos <= self.cfg.max_flight_age.nanos {
                let velocity = one.flight.velocity();
                let leg = match velocity {
                    Some((track_deg, groundspeed_kt)) => Some(
                        Leg { track_deg, groundspeed_kt, duration: age },
                    ),
                    None => None,
                };
                let glide = if one.heard == Heard::Airborne {
                    leg
                } else {
                    None
                };
                let drift = if one.heard == Heard::Omitted {
                    leg
                } else {
                    None
                };
                plan.push(
                    Reckoning { flight: &one.flight, age, heard: one.heard, velocity, glide, drift },
                );
            }
            i = i + 1;
        }
        plan
    }

    /// Every track at `now`, nearest first, from the geometry of its reckoning.
    pub fn tracks_at(&self, now: &Moment, fixes: &Vec<Fix>) -> (r: Vec<Track<'_>>)
        requires
            fixes@.len() == self.plan(*now).len(),
        ensures
            r@ == self.tracks(*now, fixes@),
    {
        let plan = self.reckonings_at(now);
        let radius_nm = self.area.radius_nm;
        let mut keys: Vec<i64> = Vec::new();
        let mut i: usize = 0;
        while i < fixes.len()
            invariant
                i <= fixes.len(),
                keys.len() == i,
                forall|k: int| 0 <= k < i ==> #[trigger] keys@[k] == distance_keys(fixes@)[k],
            decreases fixes.len() - i,
        {
            keys.push(fixes[i].distance_nm.key());
            i = i + 1;
        }
        assert(keys@ =~= distance_keys(fixes@));
        let sorted = order::sort_indices(&keys);
        let mut tracks: Vec<Track<'_>> = Vec::new();
        let mut k: usize = 0;
        while k < sorted.len()
            invariant
                k <= sorted.len(),
                sorted.len() == fixes.len(),
                plan.len() == fixes.len(),
                forall|j: int| 0 <= j < sorted.len() ==> #[trigger] sorted@[j] < fixes.len(),
                order::as_ints(sorted@) == order::sorted_indices(distance_keys(fixes@)),
                tracks.len() == k,
                forall|j: int|
                    0 <= j < k ==> #[trigger] tracks@[j] == track_of(
                        plan@[sorted@[j] as int],
                        fixes@[sorted@[j] as int],
                        radius_nm,
                    ),
            decreases sorted.len() - k,
        {
            let at: usize = sorted[k];
            let one = &plan[at];
            let fix = fixes[at];
            let state = match one.heard {
                Heard::Airborne => ContactState::InContact,
                Heard::OnGround => ContactState::Landed,
                Heard::Omitted => match fix.drifted_nm {
                    Some(d) => if radius_nm.is_below(&d) {
                        ContactState::LeftScope
                    } else {
                        ContactState::LostContact
                    },
                    None => ContactState::LostContact,
                },
            };
            tracks.push(
                Track {
                    flight: one.flight,
                    estimated: fix.estimated,
                    distance_nm: fix.distance_nm,
                    bearing_from_home: fix.bearing_from_home,
                    cpa: fix.cpa,
                    age: one.age,
                    age_s: fix.age_s,
                    state,
                },
            );
            k = k + 1;
        }
        proof {
            let expected = self.tracks(*now, fixes@);
            assert forall|j: int| 0 <= j < tracks.len() implies #[trigger] tracks@[j]
                == expected[j] by {
                assert(order::as_ints(sorted@)[j] == sorted@[j]);
            }
            assert(tracks@ =~= expected);
        }
        tracks
    }

    /// The nearest flight at `now`.
    pub fn nearest_at(&self, now: &Moment, fixes: &Vec<Fix>) -> (r: Option<Track<'_>>)
        requires
            fixes@.len() == self.plan(*now).len(),
        ensures
            r == (if fixes@.len() > 0 {
                Some(self.tracks(*now, fixes@)[0])
            } else {
                None
            }),
    {
        let mut tracks = self.tracks_at(now, fixes);
        if tracks.len() == 0 {
            None
        } else {
            Some(tracks.remove(0))
        }
    }

    /// The flight that sets the poll cadence at `now`.
    pub fn pacing_at(&self, now: &Moment, fixes: &Vec<Fix>) -> (r: Option<Track<'_>>)
        requires
            fixes@.len() == self.plan(*now).len(),
        ensures
            exists|idx: Option<usize>| #[trigger]
                paces(
                    self.tracks(*now, fixes@),
                    self.config().relevance_distance_nm,
                    fixes@.len() as int,
                    idx,
                ) && r == pick(self.tracks(*now, fixes@), idx),
    {
        let mut tracks = self.tracks_at(now, fixes);
        let ghost all = tracks@;
        let idx = pacing_index(&tracks, &self.cfg.relevance_distance_nm);
        assert(paces(all, self.cfg.relevance_distance_nm, all.len() as int, idx));
        match idx {
            Some(i) => Some(tracks.remove(i)),
            None => None,
        }
    }

    /// Everything there is to say of `now`.
    pub fn picture_at(&self, now: &Moment, fixes: &Vec<Fix>) -> (r: Picture<'_>)
        requires
            fixes@.len() == self.plan(*now).len(),
        ensures
            r.tracks@ == self.tracks(*now, fixes@),
            r.health == self.condition(*now),
            r.nearest_idx == (if fixes@.len() > 0 {
                Some(0usize)
            } else {
                None
            }),
            paces(
                r.tracks@,
                self.config().relevance_distance_nm,
                r.tracks@.len() as int,
                r.pacing_idx,
            ),
    {
        let tracks = self.tracks_at(now, fixes);
        let nearest_idx: Option<usize> = if tracks.len() > 0 {
            Some(0)
        } else {
            None
        };
        let pacing_idx = pacing_index(&tracks, &self.cfg.relevance_distance_nm);
        Picture { tracks, health: self.health(now), nearest_idx, pacing_idx }
    }
}

fn mentioned(flights: &Vec<Flight>, hex: &String) -> (r: bool)
    ensures
        r == mentions(flights@, hex@),
{
    let mut i: usize = 0;
    while i < flights.len()
        invariant
            i <= flights.len(),
            forall|k: int| 0 <= k < i ==> #[trigger] flights@[k].hex@ != hex@,
        decreases flights.len() - i,
    {
        if flights[i].hex == *hex {
            return true;
        }
        i = i + 1;
    }
    false
}

/// What a poll's reports become carries only reported addresses, each once.
pub proof fn lemma_reported_mentioned(flights: Seq<Flight>, taken_at: Moment)
    ensures
        forall|k: int|
            0 <= k < reported(flights, taken_at).len() ==> mentions(
                flights,
                (#[trigger] reported(flights, taken_at)[k]).flight.hex@,
            ),
        distinct(reported(flights, taken_at)),
    decreases flights.len(),
{
    let all = reported(flights, taken_at);
    if flights.len() > 0 {
        let less = flights.drop_first();
        let rest = reported(less, taken_at);
        lemma_reported_mentioned(less, taken_at);
        assert forall|k: int| 0 <= k < all.len() implies mentions(
            flights,
            (#[trigger] all[k]).flight.hex@,
        ) by {
            if mentions(less, flights[0].hex@) {
                let i = choose|i: int| 0 <= i < less.len() && less[i].hex@ == rest[k].flight.hex@;
                assert(flights[i + 1] == less[i]);
            } else if k == 0 {
                assert(flights[0].hex@ == all[0].flight.hex@);
            } else {
                assert(all[k] == rest[k - 1]);
                let i = choose|i: int|
                    0 <= i < less.len() && less[i].hex@ == rest[k - 1].flight.hex@;
                assert(flights[i + 1] == less[i]);
            }
        }
        assert forall|i: int, j: int| 0 <= i < j < all.len() implies (
        #[trigger] all[i]).flight.hex@ != (#[trigger] all[j]).flight.hex@ by {
            if mentions(less, flights[0].hex@) {
                assert(rest[i].flight.hex@ != rest[j].flight.hex@);
            } else if i == 0 {
                assert(all[j] == rest[j - 1]);
                assert(mentions(less, rest[j - 1].flight.hex@));
            } else {
                assert(rest[i - 1].flight.hex@ != rest[j - 1].flight.hex@);
            }
        }
    }
}

/// What stays held was held before, and stays distinct.
pub proof fn lemma_kept_from(held: Seq<Held>, snapshot: Snapshot, cap: Span)
    ensures
        forall|k: int|
            0 <= k < kept(held, snapshot, cap).len() ==> exists|i: int|
                0 <= i < held.len() && (#[trigger] held[i]).survives(snapshot, cap) && (
                #[trigger] kept(held, snapshot, cap)[k]) == held[i].omitted_by(snapshot),
        distinct(held) ==> distinct(kept(held, snapshot, cap)),
    decreases held.len(),
{
    let all = kept(held, snapshot, cap);
    if held.len() > 0 {
        let less = held.drop_first();
        let rest = kept(less, snapshot, cap);
        lemma_kept_from(less, snapshot, cap);
        let front: int = if held[0].survives(snapshot, cap) {
            1
        } else {
            0
        };
        assert forall|k: int| 0 <= k < all.len() implies exists|i: int|
            0 <= i < held.len() && (#[trigger] held[i]).survives(snapshot, cap) && (
            #[trigger] all[k]) == held[i].omitted_by(snapshot) by {
            if k >= front {
                assert(all[k] == rest[k - front]);
                let i = choose|i: int|
                    0 <= i < less.len() && (#[trigger] less[i]).survives(snapshot, cap)
                        && rest[k - front] == less[i].omitted_by(snapshot);
                assert(held[i + 1] == less[i]);
            } else {
                assert(held[0].survives(snapshot, cap));
            }
        }
        if distinct(held) {
            assert(distinct(less)) by {
                assert forall|i: int, j: int| 0 <= i < j < less.len() implies (
                #[trigger] less[i]).flight.hex@ != (#[trigger] less[j]).flight.hex@ by {
                    assert(held[i + 1].flight.hex@ != held[j + 1].flight.hex@);
                }
            }
            assert forall|i: int, j: int| 0 <= i < j < all.len() implies (
            #[trigger] all[i]).flight.hex@ != (#[trigger] all[j]).flight.hex@ by {
                assert(all[j] == rest[j - front]);
                if i >= front {
                    assert(rest[i - front].flight.hex@ != rest[j - front].flight.hex@);
                } else {
                    let m = choose|m: int|
                        0 <= m < less.len() && (#[trigger] less[m]).survives(snapshot, cap)
                            && rest[j - front] == less[m].omitted_by(snapshot);
                    assert(held[m + 1] == less[m]);
                    assert(held[0].flight.hex@ != held[m + 1].flight.hex@);
                }
            }
        }
    }
}

/// Merging a poll keeps the addresses of the held tracks distinct.
pub proof fn lemma_merged_distinct(held: Seq<Held>, snapshot: Snapshot, cap: Span)
    requires
        distinct(held),
    ensures
        distinct(merged(held, snapshot, cap)),
{
    let front = reported(snapshot.flights@, snapshot.taken_at);
    let back = kept(held, snapshot, cap);
    lemma_reported_mentioned(snapshot.flights@, snapshot.taken_at);
    lemma_kept_from(held, snapshot, cap);
    let all = merged(held, snapshot, cap);
    assert forall|i: int, j: int| 0 <= i < j < all.len() implies (#[trigger] all[i]).flight.hex@
        != (#[trigger] all[j]).flight.hex@ by {
        if j < front.len() {
            assert(front[i].flight.hex@ != front[j].flight.hex@);
        } else if i >= front.len() {
            assert(back[i - front.len()].flight.hex@ != back[j - front.len()].flight.hex@);
        } else {
            assert(mentions(snapshot.flights@, front[i].flight.hex@));
            assert(snapshot.reports(front[i].flight.hex@));
            assert(all[j] == back[j - front.len()]);
            let m = choose|m: int|
                0 <= m < held.len() && (#[trigger] held[m]).survives(snapshot, cap) && back[j
                    - front.len()] == held[m].omitted_by(snapshot);
            assert(!snapshot.reports(held[m].flight.hex@));
        }
    }
}

} // verus!
