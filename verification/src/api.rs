//! What the server answers and its clients read: plain values in fixed aviation units.

use crate::number::Number;
use vstd::prelude::*;

verus! {

/// A geographic point.
#[derive(Clone, Copy, Debug, PartialEq, Eq, Structural)]
pub struct LatLon {
    pub lat: Number,
    pub lon: Number,
}

/// How fresh the server's view is.
#[derive(Clone, Copy, Debug, PartialEq, Eq, Structural)]
pub enum Health {
    Live,
    Stale,
    NoData,
}

/// Whether a flight climbs, descends or is level.
#[derive(Clone, Copy, Debug, PartialEq, Eq, Structural)]
pub enum VerticalTrend {
    Climb,
    Descend,
    Level,
    Unknown,
}

/// Whether the server still hears a flight, and if not, why as far as known.
#[derive(Clone, Copy, Debug, PartialEq, Eq, Structural)]
pub enum ContactState {
    InContact,
    Landed,
    LeftScope,
    LostContact,
}

impl ContactState {
    /// Whether the flight is no longer heard.
    pub fn is_lost(&self) -> (r: bool)
        ensures
            r == (*self != ContactState::InContact),
    {
        *self != ContactState::InContact
    }
}

/// A flight's closest point of approach; a negative time is past.
#[derive(Clone, Copy, Debug, PartialEq, Eq, Structural)]
pub struct Cpa {
    pub time_to_cpa_s: Number,
    pub cpa_distance_nm: Number,
}

impl Cpa {
    /// The closest pass is not yet behind.
    pub open spec fn approaching(self) -> bool {
        self.time_to_cpa_s.at_least_int(0)
    }

    /// Whether the closest pass is not yet behind.
    pub fn is_approaching(&self) -> (r: bool)
        ensures
            r == self.approaching(),
    {
        self.time_to_cpa_s.is_at_least_int(0)
    }
}

/// One flight at the instant of the request.
#[derive(Debug, PartialEq)]
pub struct Flight {
    /// ICAO address.
    pub hex: String,
    pub ident: Option<String>,
    pub aircraft_type: Option<String>,
    pub model: Option<String>,
    pub registration: Option<String>,
    pub operator: Option<String>,
    /// Estimated position.
    pub lat: Number,
    pub lon: Number,
    /// Ground distance from Home.
    pub distance_nm: Number,
    /// Bearing from Home.
    pub bearing_deg: Number,
    pub altitude_ft: Option<Number>,
    pub geometric_altitude_ft: Option<Number>,
    pub groundspeed_kt: Option<Number>,
    pub track_deg: Option<Number>,
    pub vertical_rate_fpm: Option<Number>,
    pub vertical_trend: VerticalTrend,
    pub squawk: Option<String>,
    pub emergency: Option<String>,
    pub emitter_category: Option<String>,
    /// Time since the report.
    pub age_s: Number,
    pub cpa: Option<Cpa>,
    pub state: ContactState,
}

/// A labelled value, formatted by the server.
#[derive(Debug, PartialEq)]
pub struct DetailField {
    pub label: String,
    pub value: String,
}

/// A titled section of labelled values.
#[derive(Debug, PartialEq)]
pub struct DetailGroup {
    pub title: String,
    pub fields: Vec<DetailField>,
}

/// The texts of labelled values.
pub open spec fn fields_text(fields: Seq<DetailField>) -> Seq<(Seq<char>, Seq<char>)> {
    Seq::new(fields.len(), |i: int| (fields[i].label@, fields[i].value@))
}

impl View for DetailGroup {
    type V = (Seq<char>, Seq<(Seq<char>, Seq<char>)>);

    open spec fn view(&self) -> Self::V {
        (self.title@, fields_text(self.fields@))
    }
}

/// The texts of sections.
pub open spec fn groups_text(groups: Seq<DetailGroup>) -> Seq<
    (Seq<char>, Seq<(Seq<char>, Seq<char>)>),
> {
    Seq::new(groups.len(), |i: int| groups[i]@)
}

/// One flight with everything known of it.
#[derive(Debug, PartialEq)]
pub struct FlightDetail {
    pub flight: Flight,
    pub details: Vec<DetailGroup>,
}

/// The nearest flight, where there is one.
#[derive(Debug, PartialEq)]
pub struct NearestResponse {
    /// The instant of the request, in seconds since the epoch.
    pub as_of: Number,
    pub health: Health,
    pub snapshot_age_s: Option<Number>,
    pub flight: Option<Flight>,
}

/// All flights at one instant, nearest first.
#[derive(Debug, PartialEq)]
pub struct PictureResponse {
    /// The instant of the request, in seconds since the epoch.
    pub as_of: Number,
    pub health: Health,
    /// The latest poll failure.
    pub last_error: Option<String>,
    pub snapshot_age_s: Option<Number>,
    /// The address of the flight that paces.
    pub pacing_hex: Option<String>,
    pub tracks: Vec<Flight>,
}

/// The units that all numbers are in.
#[derive(Debug, PartialEq)]
pub struct Units {
    pub distance: String,
    pub altitude: String,
    pub speed: String,
    pub bearing: String,
    pub vertical_rate: String,
}

impl Units {
    /// Nautical miles, feet, knots, degrees, feet per minute.
    pub fn aviation() -> (r: Units)
        ensures
            r.distance@ == "nm"@,
            r.altitude@ == "ft"@,
            r.speed@ == "kt"@,
            r.bearing@ == "deg"@,
            r.vertical_rate@ == "fpm"@,
    {
        Units {
            distance: "nm".to_owned(),
            altitude: "ft".to_owned(),
            speed: "kt".to_owned(),
            bearing: "deg".to_owned(),
            vertical_rate: "fpm".to_owned(),
        }
    }
}

/// What does not change about a server.
#[derive(Debug, PartialEq)]
pub struct Meta {
    pub home: LatLon,
    pub radius_nm: Number,
    pub relevance_nm: Number,
    pub source: String,
    pub units: Units,
    pub version: String,
}

/// A field shows its label and then its value, and a section its title over its fields, in their
/// order.
pub proof fn law_sections_show_their_fields(groups: Seq<DetailGroup>, g: int, i: int)
    requires
        0 <= g < groups.len(),
        0 <= i < groups[g].fields@.len(),
    ensures
        groups_text(groups).len() == groups.len(),
        groups_text(groups)[g].0 == groups[g].title@,
        groups_text(groups)[g].1.len() == groups[g].fields@.len(),
        groups_text(groups)[g].1[i].0 == groups[g].fields@[i].label@,
        groups_text(groups)[g].1[i].1 == groups[g].fields@[i].value@,
{
}

/// A flight approaches until its closest pass is behind it.
pub proof fn law_approaching_until_the_pass(c: Cpa)
    requires
        c.time_to_cpa_s.finite(),
    ensures
        c.approaching() <==> c.time_to_cpa_s.units() >= 0,
{
    assert(0 * crate::number::one() == 0) by (nonlinear_arith);
}

} // verus!
