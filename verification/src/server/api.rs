//! What the tracker knows, as the answers that go out.

use crate::api;
use crate::server::config::Config;
use crate::server::domain::{self, ContactState, Cpa, DetailGroup, VerticalTrend};
use crate::server::tracker::{self, Health, Picture, Track};
use crate::number::Number;
use crate::text;
use vstd::prelude::*;

verus! {

pub open spec fn trend_out(t: VerticalTrend) -> api::VerticalTrend {
    match t {
        VerticalTrend::Climb => api::VerticalTrend::Climb,
        VerticalTrend::Descend => api::VerticalTrend::Descend,
        VerticalTrend::Level => api::VerticalTrend::Level,
        VerticalTrend::Unknown => api::VerticalTrend::Unknown,
    }
}

pub open spec fn state_out(s: ContactState) -> api::ContactState {
    match s {
        ContactState::InContact => api::ContactState::InContact,
        ContactState::Landed => api::ContactState::Landed,
        ContactState::LeftScope => api::ContactState::LeftScope,
        ContactState::LostContact => api::ContactState::LostContact,
    }
}

pub open spec fn cpa_out(c: Option<Cpa>) -> Option<api::Cpa> {
    match c {
        Some(c) => Some(
            api::Cpa { time_to_cpa_s: c.time_to_cpa_s, cpa_distance_nm: c.cpa_distance_nm },
        ),
        None => None,
    }
}

/// How fresh the data is, and the failure that goes with it.
pub open spec fn health_out(h: Health) -> (api::Health, Option<String>) {
    match h {
        Health::Live => (api::Health::Live, None),
        Health::Stale { last_error } => (api::Health::Stale, last_error),
        Health::NoData { last_error } => (api::Health::NoData, last_error),
    }
}

/// A track as it goes out: the reported fields, the estimated position and its geometry, and
/// what the server derived.
pub open spec fn flight_out(t: Track) -> api::Flight {
    let f = *t.flight;
    api::Flight {
        hex: f.hex,
        ident: f.ident,
        aircraft_type: f.aircraft_type,
        model: f.model,
        registration: f.registration,
        operator: f.operator,
        lat: t.estimated.lat,
        lon: t.estimated.lon,
        distance_nm: t.distance_nm,
        bearing_deg: t.bearing_from_home,
        altitude_ft: f.altitude_ft,
        geometric_altitude_ft: f.geometric_altitude_ft,
        groundspeed_kt: f.groundspeed_kt,
        track_deg: f.track_deg,
        vertical_rate_fpm: f.vertical_rate_fpm,
        vertical_trend: trend_out(f.trend()),
        squawk: f.squawk,
        emergency: f.emergency,
        emitter_category: f.emitter_category,
        age_s: t.age_s,
        cpa: cpa_out(t.cpa),
        state: state_out(t.state),
    }
}

pub fn wire_trend(t: VerticalTrend) -> (r: api::VerticalTrend)
    ensures
        r == trend_out(t),
{
    match t {
        VerticalTrend::Climb => api::VerticalTrend::Climb,
        VerticalTrend::Descend => api::VerticalTrend::Descend,
        VerticalTrend::Level => api::VerticalTrend::Level,
        VerticalTrend::Unknown => api::VerticalTrend::Unknown,
    }
}

pub fn wire_state(s: ContactState) -> (r: api::ContactState)
    ensures
        r == state_out(s),
{
    match s {
        ContactState::InContact => api::ContactState::InContact,
        ContactState::Landed => api::ContactState::Landed,
        ContactState::LeftScope => api::ContactState::LeftScope,
        ContactState::LostContact => api::ContactState::LostContact,
    }
}

fn wire_cpa(c: Option<Cpa>) -> (r: Option<api::Cpa>)
    ensures
        r == cpa_out(c),
{
    match c {
        Some(c) => Some(
            api::Cpa { time_to_cpa_s: c.time_to_cpa_s, cpa_distance_nm: c.cpa_distance_nm },
        ),
        None => None,
    }
}

/// How fresh the data is, and the failure that goes with it.
pub fn wire_health(h: &Health) -> (r: (api::Health, Option<String>))
    ensures
        r == health_out(*h),
{
    match h {
        Health::Live => (api::Health::Live, None),
        Health::Stale { last_error } => (api::Health::Stale, last_error.clone()),
        Health::NoData { last_error } => (api::Health::NoData, last_error.clone()),
    }
}

/// A section as it goes out.
pub fn wire_detail_group(g: &DetailGroup) -> (r: api::DetailGroup)
    ensures
        r@ == g@,
{
    let mut fields: Vec<api::DetailField> = Vec::new();
    let mut i: usize = 0;
    while i < g.fields.len()
        invariant
            i <= g.fields.len(),
            fields.len() == i,
            forall|k: int|
                0 <= k < i ==> (#[trigger] fields@[k]).label@ == g.fields@[k].0@
                    && fields@[k].value@ == g.fields@[k].1@,
        decreases g.fields.len() - i,
    {
        fields.push(
            api::DetailField { label: g.fields[i].0.clone(), value: g.fields[i].1.clone() },
        );
        i = i + 1;
    }
    assert(api::fields_text(fields@) =~= domain::fields_text(g.fields@));
    api::DetailGroup { title: g.title.clone(), fields }
}

/// A track as it goes out.
pub fn wire_flight(t: &Track) -> (r: api::Flight)
    ensures
        r == flight_out(*t),
        r.lat == t.estimated.lat && r.lon == t.estimated.lon,
        r.distance_nm == t.distance_nm && r.bearing_deg == t.bearing_from_home,
{
    let f = t.flight;
    api::Flight {
        hex: f.hex.clone(),
        ident: f.ident.clone(),
        aircraft_type: f.aircraft_type.clone(),
        model: f.model.clone(),
        registration: f.registration.clone(),
        operator: f.operator.clone(),
        lat: t.estimated.lat,
        lon: t.estimated.lon,
        distance_nm: t.distance_nm,
        bearing_deg: t.bearing_from_home,
        altitude_ft: f.altitude_ft,
        geometric_altitude_ft: f.geometric_altitude_ft,
        groundspeed_kt: f.groundspeed_kt,
        track_deg: f.track_deg,
        vertical_rate_fpm: f.vertical_rate_fpm,
        vertical_trend: wire_trend(f.vertical_trend()),
        squawk: f.squawk.clone(),
        emergency: f.emergency.clone(),
        emitter_category: f.emitter_category.clone(),
        age_s: t.age_s,
        cpa: wire_cpa(t.cpa),
        state: wire_state(t.state),
    }
}

/// The tracks as they go out.
pub open spec fn flights_out(tracks: Seq<Track>) -> Seq<api::Flight> {
    Seq::new(tracks.len(), |i: int| flight_out(tracks[i]))
}

/// The answer to which flight is nearest.
pub fn nearest(picture: &Picture, as_of: Number, snapshot_age_s: Option<Number>) -> (r:
    api::NearestResponse)
    ensures
        r.as_of == as_of,
        r.health == health_out(picture.health).0,
        r.snapshot_age_s == snapshot_age_s,
        r.flight == (match tracker::pick(picture.tracks@, picture.nearest_idx) {
            Some(t) => Some(flight_out(t)),
            None => None,
        }),
{
    let (health, _last_error) = wire_health(&picture.health);
    let flight = match picture.nearest() {
        Some(t) => Some(wire_flight(t)),
        None => None,
    };
    api::NearestResponse { as_of, health, snapshot_age_s, flight }
}

/// The answer with all flights.
pub fn picture(now: &Picture, as_of: Number, snapshot_age_s: Option<Number>) -> (r:
    api::PictureResponse)
    ensures
        r.as_of == as_of,
        r.health == health_out(now.health).0,
        r.last_error == health_out(now.health).1,
        r.snapshot_age_s == snapshot_age_s,
        r.pacing_hex == (match tracker::pick(now.tracks@, now.pacing_idx) {
            Some(t) => Some(t.flight.hex),
            None => None,
        }),
        r.tracks@ == flights_out(now.tracks@),
{
    let (health, last_error) = wire_health(&now.health);
    let pacing_hex = match now.pacing() {
        Some(t) => Some(t.flight.hex.clone()),
        None => None,
    };
    let mut tracks: Vec<api::Flight> = Vec::new();
    let mut i: usize = 0;
    while i < now.tracks.len()
        invariant
            i <= now.tracks.len(),
            tracks.len() == i,
            forall|k: int| 0 <= k < i ==> #[trigger] tracks@[k] == flight_out(now.tracks@[k]),
        decreases now.tracks.len() - i,
    {
        tracks.push(wire_flight(&now.tracks[i]));
        i = i + 1;
    }
    assert(tracks@ =~= flights_out(now.tracks@));
    api::PictureResponse { as_of, health, last_error, snapshot_age_s, pacing_hex, tracks }
}

/// Whether the track at `k` is the first with this address.
pub open spec fn is_first_with(tracks: Seq<Track>, hex: Seq<char>, k: int) -> bool {
    &&& 0 <= k < tracks.len()
    &&& tracks[k].flight.hex@ == hex
    &&& forall|j: int| 0 <= j < k ==> (#[trigger] tracks[j]).flight.hex@ != hex
}

/// Everything known of one flight, while it is held.
pub fn flight_detail(picture: &Picture, hex: &str) -> (r: Option<api::FlightDetail>)
    ensures
        r is None <==> forall|j: int|
            0 <= j < picture.tracks@.len() ==> (#[trigger] picture.tracks@[j]).flight.hex@ != hex@,
        r is Some ==> exists|k: int| #[trigger]
            is_first_with(picture.tracks@, hex@, k) && r->0.flight == flight_out(
                picture.tracks@[k],
            ) && api::groups_text(r->0.details@) == domain::groups_text(
                picture.tracks@[k].flight.details@,
            ),
{
    let mut k: usize = 0;
    while k < picture.tracks.len()
        invariant
            k <= picture.tracks.len(),
            forall|j: int| 0 <= j < k ==> (#[trigger] picture.tracks@[j]).flight.hex@ != hex@,
        decreases picture.tracks.len() - k,
    {
        let t = &picture.tracks[k];
        if text::same(t.flight.hex.as_str(), hex) {
            let mut details: Vec<api::DetailGroup> = Vec::new();
            let mut i: usize = 0;
            while i < t.flight.details.len()
                invariant
                    i <= t.flight.details.len(),
                    details.len() == i,
                    forall|j: int| 0 <= j < i ==> (#[trigger] details@[j])@
                        == t.flight.details@[j]@,
                decreases t.flight.details.len() - i,
            {
                details.push(wire_detail_group(&t.flight.details[i]));
                i = i + 1;
            }
            assert(api::groups_text(details@) =~= domain::groups_text(t.flight.details@));
            assert(is_first_with(picture.tracks@, hex@, k as int));
            return Some(api::FlightDetail { flight: wire_flight(t), details });
        }
        k = k + 1;
    }
    None
}

/// What does not change about this server.
pub fn build_meta(cfg: &Config, source: &str, version: &str) -> (r: api::Meta)
    ensures
        r.home.lat == cfg.home.lat,
        r.home.lon == cfg.home.lon,
        r.radius_nm == cfg.search.radius_nm,
        r.relevance_nm == cfg.search.relevance_distance_nm,
        r.source@ == source@,
        r.version@ == version@,
        r.units.distance@ == "nm"@ && r.units.altitude@ == "ft"@ && r.units.speed@ == "kt"@
            && r.units.bearing@ == "deg"@ && r.units.vertical_rate@ == "fpm"@,
{
    api::Meta {
        home: api::LatLon { lat: cfg.home.lat, lon: cfg.home.lon },
        radius_nm: cfg.search.radius_nm,
        relevance_nm: cfg.search.relevance_distance_nm,
        source: source.to_owned(),
        units: api::Units::aviation(),
        version: version.to_owned(),
    }
}

/// A flight is marked lost on its way out exactly where the server holds it as lost.
pub proof fn law_contact_state_goes_out(t: Track)
    ensures
        flight_out(t).state == api::ContactState::InContact <==> t.state
            == ContactState::InContact,
        flight_out(t).hex == t.flight.hex,
{
}

/// The nearest flight that goes out alone is the first of all that go out together.
pub proof fn law_nearest_is_the_first_of_all(picture: Picture)
    requires
        picture.nearest_idx == (if picture.tracks@.len() > 0 {
            Some(0usize)
        } else {
            None
        }),
    ensures
        match tracker::pick(picture.tracks@, picture.nearest_idx) {
            Some(t) => flights_out(picture.tracks@).len() > 0 && flights_out(picture.tracks@)[0]
                == flight_out(t),
            None => flights_out(picture.tracks@).len() == 0,
        },
{
}

/// The flight that goes out as pacing is in contact and among those that go out with it.
pub proof fn law_pacing_flight_goes_out(picture: Picture, relevance_distance_nm: Number)
    requires
        tracker::paces(
            picture.tracks@,
            relevance_distance_nm,
            picture.tracks@.len() as int,
            picture.pacing_idx,
        ),
    ensures
        tracker::pick(picture.tracks@, picture.pacing_idx) is Some ==> exists|i: int|
            0 <= i < flights_out(picture.tracks@).len() && (#[trigger] flights_out(
                picture.tracks@,
            )[i]).hex == tracker::pick(picture.tracks@, picture.pacing_idx)->0.flight.hex
                && flights_out(picture.tracks@)[i].state == api::ContactState::InContact,
{
    if tracker::pick(picture.tracks@, picture.pacing_idx) is Some {
        let i = picture.pacing_idx->0 as int;
        let out = flights_out(picture.tracks@)[i];
        assert(out == flight_out(picture.tracks@[i]));
    }
}

/// Where a flight goes out to be is where its track is estimated: latitude as latitude,
/// longitude as longitude, with the track's own distance, bearing and age.
pub proof fn law_geometry_goes_out_as_it_is(t: Track)
    ensures
        flight_out(t).lat == t.estimated.lat,
        flight_out(t).lon == t.estimated.lon,
        flight_out(t).distance_nm == t.distance_nm,
        flight_out(t).bearing_deg == t.bearing_from_home,
        flight_out(t).age_s == t.age_s,
        flight_out(t).cpa is Some <==> t.cpa is Some,
        t.cpa is Some ==> flight_out(t).cpa->0.time_to_cpa_s == t.cpa->0.time_to_cpa_s
            && flight_out(t).cpa->0.cpa_distance_nm == t.cpa->0.cpa_distance_nm,
{
}

/// What was reported of a flight goes out field by field.
pub proof fn law_report_goes_out_as_it_is(t: Track)
    ensures
        ({
            let out = flight_out(t);
            let f = *t.flight;
            &&& out.hex == f.hex
            &&& out.ident == f.ident
            &&& out.aircraft_type == f.aircraft_type
            &&& out.model == f.model
            &&& out.registration == f.registration
            &&& out.operator == f.operator
            &&& out.altitude_ft == f.altitude_ft
            &&& out.geometric_altitude_ft == f.geometric_altitude_ft
            &&& out.groundspeed_kt == f.groundspeed_kt
            &&& out.track_deg == f.track_deg
            &&& out.vertical_rate_fpm == f.vertical_rate_fpm
            &&& out.squawk == f.squawk
            &&& out.emergency == f.emergency
            &&& out.emitter_category == f.emitter_category
        }),
{
}

/// The state of contact goes out by its name, and so does the vertical trend, which is that of
/// the reported rate.
pub proof fn law_names_go_out_unchanged(t: Track)
    ensures
        flight_out(t).state == api::ContactState::InContact <==> t.state
            == ContactState::InContact,
        flight_out(t).state == api::ContactState::Landed <==> t.state == ContactState::Landed,
        flight_out(t).state == api::ContactState::LeftScope <==> t.state
            == ContactState::LeftScope,
        flight_out(t).state == api::ContactState::LostContact <==> t.state
            == ContactState::LostContact,
        flight_out(t).vertical_trend == api::VerticalTrend::Climb <==> t.flight.trend()
            == VerticalTrend::Climb,
        flight_out(t).vertical_trend == api::VerticalTrend::Descend <==> t.flight.trend()
            == VerticalTrend::Descend,
        flight_out(t).vertical_trend == api::VerticalTrend::Level <==> t.flight.trend()
            == VerticalTrend::Level,
        flight_out(t).vertical_trend == api::VerticalTrend::Unknown <==> t.flight.trend()
            == VerticalTrend::Unknown,
{
}

/// How fresh the data is goes out by its name; a failure goes out with data that is not live,
/// and with it alone.
pub proof fn law_health_goes_out_with_its_failure(h: Health)
    ensures
        health_out(h).0 == api::Health::Live <==> h is Live,
        health_out(h).0 == api::Health::Stale <==> h is Stale,
        health_out(h).0 == api::Health::NoData <==> h is NoData,
        match h {
            Health::Live => health_out(h).1 is None,
            Health::Stale { last_error } => health_out(h).1 == last_error,
            Health::NoData { last_error } => health_out(h).1 == last_error,
        },
{
}

/// Every track goes out, in the order of the picture, and nothing besides.
pub proof fn law_every_track_goes_out_in_order(tracks: Seq<Track>, i: int)
    requires
        0 <= i < tracks.len(),
    ensures
        flights_out(tracks).len() == tracks.len(),
        flights_out(tracks)[i].hex == tracks[i].flight.hex,
        flights_out(tracks)[i].lat == tracks[i].estimated.lat,
        flights_out(tracks)[i].lon == tracks[i].estimated.lon,
        flights_out(tracks)[i].distance_nm == tracks[i].distance_nm,
{
}

/// The flight that is asked for by its address is the one that answers, and where several have
/// it the first of them.
pub proof fn law_detail_is_of_the_address_asked_for(
    tracks: Seq<Track>,
    hex: Seq<char>,
    k: int,
    l: int,
)
    requires
        is_first_with(tracks, hex, k),
        is_first_with(tracks, hex, l),
    ensures
        k == l,
        0 <= k < tracks.len(),
        flight_out(tracks[k]).hex@ == hex,
{
    if k < l {
        assert(tracks[k].flight.hex@ != hex);
    } else if l < k {
        assert(tracks[l].flight.hex@ != hex);
    }
}

/// Where a track with the address is held, the first such track is one that no other precedes.
pub proof fn law_first_with_an_address(tracks: Seq<Track>, hex: Seq<char>, k: int)
    requires
        0 <= k < tracks.len(),
        tracks[k].flight.hex@ == hex,
    ensures
        (forall|j: int| 0 <= j < k ==> (#[trigger] tracks[j]).flight.hex@ != hex)
            <==> is_first_with(tracks, hex, k),
{
}

} // verus!
