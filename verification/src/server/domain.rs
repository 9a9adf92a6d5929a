//! The provider-neutral types that every layer above the sources speaks.

use crate::number::Number;
use crate::span::{Moment, Span};
use vstd::prelude::*;

verus! {

/// A geographic point: Home, or a flight's position.
#[derive(Clone, Copy, Debug, PartialEq, Eq, Structural)]
pub struct LatLon {
    pub lat: Number,
    pub lon: Number,
}

impl LatLon {
    pub fn new(lat: Number, lon: Number) -> (r: LatLon)
        ensures
            r.lat == lat,
            r.lon == lon,
    {
        LatLon { lat, lon }
    }
}

/// The region around Home that a source is asked about.
#[derive(Clone, Copy, Debug, PartialEq, Eq, Structural)]
pub struct SearchArea {
    /// Home: the fixed point that all distances are measured from.
    pub center: LatLon,
    pub radius_nm: Number,
}

/// The closest point of approach of a flight to Home, should it hold course and speed.
#[derive(Clone, Copy, Debug, PartialEq, Eq, Structural)]
pub struct Cpa {
    /// Seconds until the closest pass; negative once it is past.
    pub time_to_cpa_s: Number,
    /// How close the flight gets, in nautical miles.
    pub cpa_distance_nm: Number,
}

impl Cpa {
    /// The closest pass is not yet behind.
    pub open spec fn approaching(self) -> bool {
        self.time_to_cpa_s.at_least_int(0)
    }

    /// Whether the closest pass is not yet behind.
    pub fn is_approaching(&self) -> (r: bool)
        ensures
            r == self.approaching(),
    {
        self.time_to_cpa_s.is_at_least_int(0)
    }
}

/// Display-only telemetry of one flight, formatted and grouped by its source.
#[derive(Debug)]
pub struct DetailGroup {
    /// Section heading.
    pub title: String,
    /// Label and value, with units.
    pub fields: Vec<(String, String)>,
}

/// The texts of labelled values.
pub open spec fn fields_text(fields: Seq<(String, String)>) -> Seq<(Seq<char>, Seq<char>)> {
    Seq::new(fields.len(), |i: int| (fields[i].0@, fields[i].1@))
}

impl View for DetailGroup {
    type V = (Seq<char>, Seq<(Seq<char>, Seq<char>)>);

    open spec fn view(&self) -> Self::V {
        (self.title@, fields_text(self.fields@))
    }
}

/// The texts of detail groups.
pub open spec fn groups_text(groups: Seq<DetailGroup>) -> Seq<
    (Seq<char>, Seq<(Seq<char>, Seq<char>)>),
> {
    Seq::new(groups.len(), |i: int| groups[i]@)
}

/// Whether a flight climbs, descends or holds its level.
#[derive(Clone, Copy, Debug, PartialEq, Eq, Structural)]
pub enum VerticalTrend {
    Climb,
    Descend,
    Level,
    Unknown,
}

/// Whether the latest poll heard a flight, and if not, why it is missing as far as known.
#[derive(Clone, Copy, Debug, PartialEq, Eq, Structural)]
pub enum ContactState {
    /// Reported by the latest poll.
    InContact,
    /// Reported on the ground.
    Landed,
    /// Held to its last course, it would now be outside the Search area.
    LeftScope,
    /// Missing for a reason unknown.
    LostContact,
}

/// One airborne flight as a source last reported it.
#[derive(Debug)]
pub struct Flight {
    /// ICAO address: the identity of an aircraft across polls.
    pub hex: String,
    /// Callsign; absent where the operator blocks it.
    pub ident: Option<String>,
    /// ICAO type designator.
    pub aircraft_type: Option<String>,
    /// Model description.
    pub model: Option<String>,
    /// Tail number.
    pub registration: Option<String>,
    /// Operating organisation.
    pub operator: Option<String>,
    /// Last reported ground position.
    pub position: LatLon,
    /// Barometric altitude in feet.
    pub altitude_ft: Option<Number>,
    /// Geometric altitude in feet.
    pub geometric_altitude_ft: Option<Number>,
    /// Groundspeed in knots.
    pub groundspeed_kt: Option<Number>,
    /// Track over the ground, degrees clockwise from true north.
    pub track_deg: Option<Number>,
    /// Vertical rate in feet per minute, a climb being positive.
    pub vertical_rate_fpm: Option<Number>,
    /// Transponder code, as text.
    pub squawk: Option<String>,
    /// Emergency state, where one is broadcast.
    pub emergency: Option<String>,
    /// Coarse classification of the aircraft.
    pub emitter_category: Option<String>,
    /// How old the position was when the snapshot was taken.
    pub reported_age: Span,
    /// Telemetry for the detail view.
    pub details: Vec<DetailGroup>,
}

/// Below this groundspeed, in knots, a flight counts as standing still.
pub const MOVING_FLOOR_KT: i32 = 1;

/// A vertical rate within this many feet per minute of zero counts as level.
pub const VERTICAL_LEVEL_FLOOR_FPM: i32 = 100;

impl Flight {
    /// Track and groundspeed of a flight that moves; `None` where either is unknown or the
    /// groundspeed is below the floor.
    pub open spec fn moving(self) -> Option<(Number, Number)> {
        match (self.track_deg, self.groundspeed_kt) {
            (Some(track), Some(gs)) => if gs.at_least_int(MOVING_FLOOR_KT as int) {
                Some((track, gs))
            } else {
                None
            },
            _ => None,
        }
    }

    /// Track and groundspeed, where the flight is usably moving.
    pub fn velocity(&self) -> (r: Option<(Number, Number)>)
        ensures
            r == self.moving(),
    {
        match (self.track_deg, self.groundspeed_kt) {
            (Some(track), Some(gs)) => if gs.is_at_least_int(MOVING_FLOOR_KT) {
                Some((track, gs))
            } else {
                None
            },
            _ => None,
        }
    }

    /// What the vertical rate says of the flight.
    pub open spec fn trend(self) -> VerticalTrend {
        match self.vertical_rate_fpm {
            None => VerticalTrend::Unknown,
            Some(r) => if r.above_int(-VERTICAL_LEVEL_FLOOR_FPM) && r.below_int(
                VERTICAL_LEVEL_FLOOR_FPM as int,
            ) {
                VerticalTrend::Level
            } else if r.above_int(0) {
                VerticalTrend::Climb
            } else {
                VerticalTrend::Descend
            },
        }
    }

    /// Whether the flight climbs, descends or is level.
    pub fn vertical_trend(&self) -> (r: VerticalTrend)
        ensures
            r == self.trend(),
    {
        match self.vertical_rate_fpm {
            None => VerticalTrend::Unknown,
            Some(r) => {
                if r.is_above_int(-VERTICAL_LEVEL_FLOOR_FPM) && r.is_below_int(
                    VERTICAL_LEVEL_FLOOR_FPM,
                ) {
                    VerticalTrend::Level
                } else if r.is_above_int(0) {
                    VerticalTrend::Climb
                } else {
                    VerticalTrend::Descend
                }
            },
        }
    }
}

/// What one poll returned: the airborne flights of the Search area, and the aircraft it saw
/// on the ground.
#[derive(Debug)]
pub struct Snapshot {
    pub flights: Vec<Flight>,
    /// Addresses reported on the ground; they only ever turn a held track to landed.
    pub on_ground: Vec<String>,
    /// When this process received the snapshot.
    pub taken_at: Moment,
}

impl Snapshot {
    /// A snapshot without ground reports.
    pub fn new(flights: Vec<Flight>, taken_at: Moment) -> (r: Snapshot)
        ensures
            r.flights == flights,
            r.on_ground@.len() == 0,
            r.taken_at == taken_at,
    {
        Self::with_ground(flights, Vec::new(), taken_at)
    }

    /// A snapshot with the addresses that were reported on the ground.
    pub fn with_ground(flights: Vec<Flight>, on_ground: Vec<String>, taken_at: Moment) -> (r:
        Snapshot)
        ensures
            r.flights == flights,
            r.on_ground == on_ground,
            r.taken_at == taken_at,
    {
        Snapshot { flights, on_ground, taken_at }
    }

    /// Whether a flight with this address is reported airborne.
    pub open spec fn reports(self, hex: Seq<char>) -> bool {
        exists|i: int| 0 <= i < self.flights@.len() && #[trigger] self.flights@[i].hex@ == hex
    }

    /// Whether this address is reported on the ground.
    pub open spec fn grounds(self, hex: Seq<char>) -> bool {
        exists|i: int| 0 <= i < self.on_ground@.len() && #[trigger] self.on_ground@[i]@ == hex
    }

    /// Whether a flight with this address is reported airborne.
    pub fn has_flight(&self, hex: &String) -> (r: bool)
        ensures
            r == self.reports(hex@),
    {
        let mut i: usize = 0;
        while i < self.flights.len()
            invariant
                i <= self.flights.len(),
                forall|k: int| 0 <= k < i ==> #[trigger] self.flights@[k].hex@ != hex@,
            decreases self.flights.len() - i,
        {
            if self.flights[i].hex == *hex {
                return true;
            }
            i = i + 1;
        }
        false
    }

    /// Whether this address is reported on the ground.
    pub fn has_ground(&self, hex: &String) -> (r: bool)
        ensures
            r == self.grounds(hex@),
    {
        let mut i: usize = 0;
        while i < self.on_ground.len()
            invariant
                i <= self.on_ground.len(),
                forall|k: int| 0 <= k < i ==> #[trigger] self.on_ground@[k]@ != hex@,
            decreases self.on_ground.len() - i,
        {
            if self.on_ground[i] == *hex {
                return true;
            }
            i = i + 1;
        }
        false
    }
}

/// A flight moves where its track and a groundspeed of at least one knot are known, and then
/// by just these two.
pub proof fn law_velocity_is_track_and_groundspeed(f: Flight)
    ensures
        f.moving() is Some <==> f.track_deg is Some && f.groundspeed_kt is Some
            && f.groundspeed_kt->0.at_least_int(1),
        f.moving() is Some ==> Some((f.moving()->0).0) == f.track_deg && Some((f.moving()->0).1)
            == f.groundspeed_kt,
{
}

/// A hundred feet a minute or more up is a climb, as much down a descent, anything between is
/// level flight, and without a rate nothing is known.
pub proof fn law_trend_follows_the_vertical_rate(f: Flight)
    ensures
        f.trend() == VerticalTrend::Unknown <==> f.vertical_rate_fpm is None,
        f.vertical_rate_fpm is Some && f.vertical_rate_fpm->0.finite() ==> ({
            let units = f.vertical_rate_fpm->0.units();
            let hundred = 100 * crate::number::one();
            &&& f.trend() == VerticalTrend::Climb <==> units >= hundred
            &&& f.trend() == VerticalTrend::Descend <==> units <= -hundred
            &&& f.trend() == VerticalTrend::Level <==> -hundred < units < hundred
        }),
{
    let o: int = crate::number::one() as int;
    vstd::arithmetic::power2::lemma_pow2_pos(1074);
    assert((-100int) * o == -(100 * o)) by (nonlinear_arith);
    assert(0 * o == 0) by (nonlinear_arith);
    assert(100 * o > 0) by (nonlinear_arith)
        requires
            o > 0,
    ;
}

/// A flight approaches until its closest pass is behind it.
pub proof fn law_approaching_until_the_pass(c: Cpa)
    requires
        c.time_to_cpa_s.finite(),
    ensures
        c.approaching() <==> c.time_to_cpa_s.units() >= 0,
{
    assert(0 * crate::number::one() == 0) by (nonlinear_arith);
}

/// A snapshot reports the addresses of its flights and no others, and grounds those that it
/// saw on the ground and no others.
pub proof fn law_snapshot_reports_its_own(s: Snapshot, i: int, hex: Seq<char>)
    ensures
        0 <= i < s.flights@.len() ==> s.reports(s.flights@[i].hex@),
        0 <= i < s.on_ground@.len() ==> s.grounds(s.on_ground@[i]@),
        (forall|k: int| 0 <= k < s.flights@.len() ==> (#[trigger] s.flights@[k]).hex@ != hex)
            ==> !s.reports(hex),
        (forall|k: int| 0 <= k < s.on_ground@.len() ==> (#[trigger] s.on_ground@[k])@ != hex)
            ==> !s.grounds(hex),
{
}

/// A field shows its label and then its value, and a section its title over its fields, in their
/// order.
pub proof fn law_sections_show_their_fields(groups: Seq<DetailGroup>, g: int, i: int)
    requires
        0 <= g < groups.len(),
        0 <= i < groups[g].fields@.len(),
    ensures
        groups_text(groups).len() == groups.len(),
        groups_text(groups)[g].0 == groups[g].title@,
        groups_text(groups)[g].1.len() == groups[g].fields@.len(),
        groups_text(groups)[g].1[i].0 == groups[g].fields@[i].0@,
        groups_text(groups)[g].1[i].1 == groups[g].fields@[i].1@,
{
}

} // verus!
