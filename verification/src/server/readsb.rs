//! The readsb family of feeds: one aircraft of a point query, made into a flight.

use crate::decimal;
use crate::number::Number;
use crate::server::domain::{self, DetailGroup, Flight, LatLon, Snapshot};
use crate::server::sources::SourceError;
use crate::span::{Moment, Span};
use crate::text;
use vstd::prelude::*;

verus! {

/// An altitude as the feed gives it: feet, or a label.
#[derive(Debug)]
pub enum Altitude {
    Feet(Number),
    Label(String),
}

/// One aircraft as the feed describes it; every field but the address may be missing.
#[derive(Debug)]
pub struct WireAircraft {
    pub hex: String,
    pub flight: Option<String>,
    /// Type designator.
    pub t: Option<String>,
    /// Model description.
    pub desc: Option<String>,
    /// Registration.
    pub r: Option<String>,
    pub own_op: Option<String>,
    pub year: Option<String>,
    pub lat: Option<Number>,
    pub lon: Option<Number>,
    pub alt_baro: Option<Altitude>,
    pub alt_geom: Option<Altitude>,
    pub gs: Option<Number>,
    pub track: Option<Number>,
    pub baro_rate: Option<Number>,
    pub geom_rate: Option<Number>,
    pub squawk: Option<String>,
    pub emergency: Option<String>,
    /// Emitter category code.
    pub category: Option<String>,
    pub nav_qnh: Option<Number>,
    pub nav_altitude_mcp: Option<Number>,
    pub nav_heading: Option<Number>,
    pub nav_modes: Option<Vec<String>>,
    pub nic: Option<i64>,
    pub rc: Option<i64>,
    pub nic_baro: Option<i64>,
    pub nac_p: Option<i64>,
    pub nac_v: Option<i64>,
    pub sil: Option<i64>,
    pub sil_type: Option<String>,
    pub gva: Option<i64>,
    pub sda: Option<i64>,
    /// How the position was derived.
    pub data_type: Option<String>,
    pub version: Option<i64>,
    pub mlat: Option<Vec<String>>,
    pub tisb: Option<Vec<String>>,
    pub alert: Option<i64>,
    pub spi: Option<i64>,
    pub messages: Option<i64>,
    /// Seconds since the last message of any kind.
    pub seen: Option<Number>,
    pub rssi: Option<Number>,
    /// Seconds since the last position.
    pub seen_pos: Option<Number>,
}

/// A labelled value where there is one.
pub open spec fn given(label: Seq<char>, value: Option<Seq<char>>) -> Seq<(Seq<char>, Seq<char>)> {
    match value {
        Some(v) => seq![(label, v)],
        None => Seq::empty(),
    }
}

/// A section where it has a field.
pub open spec fn section(title: Seq<char>, fields: Seq<(Seq<char>, Seq<char>)>) -> Seq<
    (Seq<char>, Seq<(Seq<char>, Seq<char>)>),
> {
    if fields.len() == 0 {
        Seq::empty()
    } else {
        seq![(title, fields)]
    }
}

/// A number with decimals and a unit.
pub open spec fn measure(v: Option<Number>, decimals: nat, unit: Seq<char>) -> Option<Seq<char>> {
    match v {
        Some(x) => Some(decimal::fixed_text(x, decimals) + unit),
        None => None,
    }
}

/// A whole number and a unit.
pub open spec fn count(v: Option<i64>, unit: Seq<char>) -> Option<Seq<char>> {
    match v {
        Some(n) => Some(text::int_text(n as int) + unit),
        None => None,
    }
}

/// A list with commas between, where it has an entry.
pub open spec fn listed(v: Option<Vec<String>>) -> Option<Seq<char>> {
    match v {
        Some(items) => if items@.len() == 0 {
            None
        } else {
            Some(text::joined(text::all(items@), ", "@))
        },
        None => None,
    }
}

/// "yes" for a flag that is set to 1.
pub open spec fn flagged(v: Option<i64>) -> Option<Seq<char>> {
    if v == Some(1i64) {
        Some("yes"@)
    } else {
        None
    }
}

/// The readable label of the way a position was derived.
pub open spec fn data_type_label(t: Seq<char>) -> Seq<char> {
    if t == "adsb_icao"@ {
        "ADS-B (ICAO)"@
    } else if t == "adsb_icao_nt"@ {
        "ADS-B (ICAO, non-transponder)"@
    } else if t == "adsr_icao"@ {
        "ADS-R (ICAO)"@
    } else if t == "tisb_icao"@ {
        "TIS-B (ICAO)"@
    } else if t == "adsc"@ {
        "ADS-C"@
    } else if t == "mlat"@ {
        "MLAT"@
    } else if t == "mode_s"@ {
        "Mode S"@
    } else if t == "adsb_other"@ {
        "ADS-B (other)"@
    } else if t == "adsr_other"@ {
        "ADS-R (other)"@
    } else if t == "tisb_other"@ {
        "TIS-B (other)"@
    } else if t == "tisb_trackfile"@ {
        "TIS-B trackfile"@
    } else {
        t
    }
}

/// The label of an emitter category code; an unknown code stands for itself.
pub open spec fn category_label(code: Seq<char>) -> Seq<char> {
    if code == "A1"@ {
        "light"@
    } else if code == "A2"@ {
        "small"@
    } else if code == "A3"@ {
        "large"@
    } else if code == "A4"@ {
        "high-vortex large"@
    } else if code == "A5"@ {
        "heavy"@
    } else if code == "A6"@ {
        "high performance"@
    } else if code == "A7"@ {
        "rotorcraft"@
    } else if code == "B1"@ {
        "glider / sailplane"@
    } else if code == "B2"@ {
        "lighter-than-air"@
    } else if code == "B3"@ {
        "parachutist"@
    } else if code == "B4"@ {
        "ultralight / hang-glider"@
    } else if code == "B6"@ {
        "unmanned"@
    } else if code == "B7"@ {
        "space vehicle"@
    } else if code == "C1"@ {
        "surface — emergency vehicle"@
    } else if code == "C2"@ {
        "surface — service vehicle"@
    } else if code == "C3"@ {
        "point obstacle"@
    } else if code == "A0"@ || code == "B0"@ || code == "C0"@ {
        "no info"@
    } else {
        code
    }
}

/// A string without white space around it; an empty one counts as missing.
pub open spec fn meaningful(s: Option<Seq<char>>) -> Option<Seq<char>> {
    match s {
        Some(t) => if text::trimmed(t).len() == 0 {
            None
        } else {
            Some(text::trimmed(t))
        },
        None => None,
    }
}

impl WireAircraft {
    /// On the ground, as the barometric altitude's label says.
    pub open spec fn grounded(self) -> bool {
        self.alt_baro is Some && self.alt_baro->0 is Label && text::same_ignoring_case(
            self.alt_baro->0->Label_0@,
            "ground"@,
        )
    }

    /// Whether the age of the position is a length of time: a negative one counts as none.
    pub open spec fn age_expressible(self) -> bool {
        self.seen_pos is Some ==> self.seen_pos->0.nan() || self.seen_pos->0.below_int(0)
            || Span::expressible(self.seen_pos->0)
    }

    /// Whether this is off the ground and has a position.
    pub open spec fn airborne(self) -> bool {
        !self.grounded() && self.lat is Some && self.lon is Some
    }

    /// Whether the age of the position is a length of time, where it comes to matter.
    pub open spec fn mappable(self) -> bool {
        self.airborne() ==> self.age_expressible()
    }

    /// The age of the position in nanoseconds, to the nearest.
    pub open spec fn age_nanos(self) -> int {
        if self.seen_pos is None || self.seen_pos->0.nan() || self.seen_pos->0.below_int(0) {
            0
        } else {
            crate::number::round_half_even(
                (self.seen_pos->0.units() * crate::span::SECOND) as nat,
                crate::number::one(),
            ) as int
        }
    }

    pub open spec fn signal(self) -> Seq<(Seq<char>, Seq<char>)> {
        given("RSSI"@, measure(self.rssi, 1, " dBFS"@)) + given(
            "Messages"@,
            count(self.messages, ""@),
        ) + given("Last seen"@, measure(self.seen, 1, "s ago"@))
    }

    pub open spec fn integrity(self) -> Seq<(Seq<char>, Seq<char>)> {
        given("NIC"@, count(self.nic, ""@)) + given(
            "Radius of containment"@,
            count(self.rc, " m"@),
        ) + given("NIC baro"@, count(self.nic_baro, ""@)) + given(
            "NACp"@,
            count(self.nac_p, ""@),
        ) + given("NACv"@, count(self.nac_v, ""@)) + given("SIL"@, count(self.sil, ""@)) + given(
            "SIL type"@,
            text::opt(self.sil_type),
        ) + given("GVA"@, count(self.gva, ""@)) + given("SDA"@, count(self.sda, ""@))
    }

    pub open spec fn navigation(self) -> Seq<(Seq<char>, Seq<char>)> {
        given("QNH"@, measure(self.nav_qnh, 1, " hPa"@)) + given(
            "Selected altitude"@,
            measure(self.nav_altitude_mcp, 0, " ft"@),
        ) + given("Selected heading"@, measure(self.nav_heading, 0, "°"@)) + given(
            "Modes"@,
            listed(self.nav_modes),
        )
    }

    pub open spec fn provenance(self) -> Seq<(Seq<char>, Seq<char>)> {
        given(
            "Data source"@,
            match self.data_type {
                Some(t) => Some(data_type_label(t@)),
                None => None,
            },
        ) + given("ADS-B version"@, count(self.version, ""@)) + given(
            "MLAT fields"@,
            listed(self.mlat),
        ) + given("TIS-B fields"@, listed(self.tisb)) + given("Alert"@, flagged(self.alert))
            + given("SPI / ident"@, flagged(self.spi))
    }

    pub open spec fn airframe(self) -> Seq<(Seq<char>, Seq<char>)> {
        given("Year"@, text::opt(self.year))
    }

    /// The display-only telemetry in its sections; nothing is shown that was not sent.
    pub open spec fn telemetry(self) -> Seq<(Seq<char>, Seq<(Seq<char>, Seq<char>)>)> {
        section("Signal"@, self.signal()) + section("Integrity"@, self.integrity()) + section(
            "Navigation"@,
            self.navigation(),
        ) + section("Provenance"@, self.provenance()) + section("Airframe"@, self.airframe())
    }

    /// Whether `f` is the flight that this aircraft is.
    pub open spec fn becomes(self, f: Flight) -> bool {
        &&& f.hex@ == self.hex@
        &&& text::opt(f.ident) == meaningful(text::opt(self.flight))
        &&& text::opt(f.aircraft_type) == meaningful(text::opt(self.t))
        &&& text::opt(f.model) == meaningful(text::opt(self.desc))
        &&& text::opt(f.registration) == meaningful(text::opt(self.r))
        &&& text::opt(f.operator) == meaningful(text::opt(self.own_op))
        &&& Some(f.position.lat) == self.lat
        &&& Some(f.position.lon) == self.lon
        &&& f.altitude_ft == feet(self.alt_baro)
        &&& f.geometric_altitude_ft == feet(self.alt_geom)
        &&& f.groundspeed_kt == self.gs
        &&& f.track_deg == self.track
        &&& f.vertical_rate_fpm == (if self.baro_rate is Some {
            self.baro_rate
        } else {
            self.geom_rate
        })
        &&& text::opt(f.squawk) == meaningful(text::opt(self.squawk))
        &&& text::opt(f.emergency) == (match meaningful(text::opt(self.emergency)) {
            Some(e) => if text::same_ignoring_case(e, "none"@) {
                None
            } else {
                Some(e)
            },
            None => None,
        })
        &&& text::opt(f.emitter_category) == (match meaningful(text::opt(self.category)) {
            Some(c) => Some(category_label(c)),
            None => None,
        })
        &&& f.reported_age.nanos == self.age_nanos()
        &&& domain::groups_text(f.details@) == self.telemetry()
    }
}

/// The feet of an altitude that is a number.
pub open spec fn feet(a: Option<Altitude>) -> Option<Number> {
    match a {
        Some(Altitude::Feet(ft)) => Some(ft),
        _ => None,
    }
}

fn feet_of(a: &Option<Altitude>) -> (r: Option<Number>)
    ensures
        r == feet(*a),
{
    match a {
        Some(Altitude::Feet(ft)) => Some(*ft),
        _ => None,
    }
}

fn offer(fields: &mut Vec<(String, String)>, label: &str, value: Option<String>)
    ensures
        domain::fields_text(final(fields)@) == domain::fields_text(old(fields)@) + given(
            label@,
            text::opt(value),
        ),
{
    let ghost before = domain::fields_text(fields@);
    match value {
        Some(v) => {
            fields.push((label.to_owned(), v));
        },
        None => {},
    }
    assert(domain::fields_text(fields@) =~= before + given(label@, text::opt(value)));
}

fn show_measure(v: &Option<Number>, decimals: u8, unit: &str) -> (r: Option<String>)
    requires
        decimals <= 9,
    ensures
        text::opt(r) == measure(*v, decimals as nat, unit@),
{
    match v {
        Some(x) => Some(text::concat(decimal::fixed(x, decimals).as_str(), unit)),
        None => None,
    }
}

fn show_count(v: &Option<i64>, unit: &str) -> (r: Option<String>)
    ensures
        text::opt(r) == count(*v, unit@),
{
    match v {
        Some(n) => Some(text::concat(text::int_to_text(*n).as_str(), unit)),
        None => None,
    }
}

fn show_list(v: &Option<Vec<String>>) -> (r: Option<String>)
    ensures
        text::opt(r) == listed(*v),
{
    match v {
        Some(items) => if items.len() == 0 {
            None
        } else {
            Some(text::join(items, ", "))
        },
        None => None,
    }
}

fn show_flag(v: &Option<i64>) -> (r: Option<String>)
    ensures
        text::opt(r) == flagged(*v),
{
    match v {
        Some(n) => if *n == 1 {
            Some("yes".to_owned())
        } else {
            None
        },
        None => None,
    }
}

/// A section is appended only where it has a field.
pub fn push_group(groups: &mut Vec<DetailGroup>, title: &str, fields: Vec<(String, String)>)
    ensures
        domain::groups_text(final(groups)@) == domain::groups_text(old(groups)@) + section(
            title@,
            domain::fields_text(fields@),
        ),
{
    let ghost before = domain::groups_text(groups@);
    let ghost shown = domain::fields_text(fields@);
    if fields.len() > 0 {
        groups.push(DetailGroup { title: title.to_owned(), fields });
    }
    assert(domain::groups_text(groups@) =~= before + section(title@, shown));
}

/// The display-only telemetry of an aircraft, in its sections.
pub fn build_details(w: &WireAircraft) -> (groups: Vec<DetailGroup>)
    ensures
        domain::groups_text(groups@) == w.telemetry(),
{
    let mut groups: Vec<DetailGroup> = Vec::new();
    let ghost none = domain::groups_text(groups@);

    let mut signal: Vec<(String, String)> = Vec::new();
    assert(domain::fields_text(signal@) =~= Seq::empty());
    offer(&mut signal, "RSSI", show_measure(&w.rssi, 1, " dBFS"));
    offer(&mut signal, "Messages", show_count(&w.messages, ""));
    offer(&mut signal, "Last seen", show_measure(&w.seen, 1, "s ago"));
    assert(domain::fields_text(signal@) =~= w.signal());
    push_group(&mut groups, "Signal", signal);

    let mut integrity: Vec<(String, String)> = Vec::new();
    assert(domain::fields_text(integrity@) =~= Seq::empty());
    offer(&mut integrity, "NIC", show_count(&w.nic, ""));
    offer(&mut integrity, "Radius of containment", show_count(&w.rc, " m"));
    offer(&mut integrity, "NIC baro", show_count(&w.nic_baro, ""));
    offer(&mut integrity, "NACp", show_count(&w.nac_p, ""));
    offer(&mut integrity, "NACv", show_count(&w.nac_v, ""));
    offer(&mut integrity, "SIL", show_count(&w.sil, ""));
    offer(&mut integrity, "SIL type", w.sil_type.clone());
    offer(&mut integrity, "GVA", show_count(&w.gva, ""));
    offer(&mut integrity, "SDA", show_count(&w.sda, ""));
    assert(domain::fields_text(integrity@) =~= w.integrity());
    push_group(&mut groups, "Integrity", integrity);

    let mut nav: Vec<(String, String)> = Vec::new();
    assert(domain::fields_text(nav@) =~= Seq::empty());
    offer(&mut nav, "QNH", show_measure(&w.nav_qnh, 1, " hPa"));
    offer(&mut nav, "Selected altitude", show_measure(&w.nav_altitude_mcp, 0, " ft"));
    offer(&mut nav, "Selected heading", show_measure(&w.nav_heading, 0, "°"));
    offer(&mut nav, "Modes", show_list(&w.nav_modes));
    assert(domain::fields_text(nav@) =~= w.navigation());
    push_group(&mut groups, "Navigation", nav);

    let mut prov: Vec<(String, String)> = Vec::new();
    assert(domain::fields_text(prov@) =~= Seq::empty());
    let source = match &w.data_type {
        Some(t) => Some(decode_data_type(t.as_str()).to_owned()),
        None => None,
    };
    offer(&mut prov, "Data source", source);
    offer(&mut prov, "ADS-B version", show_count(&w.version, ""));
    offer(&mut prov, "MLAT fields", show_list(&w.mlat));
    offer(&mut prov, "TIS-B fields", show_list(&w.tisb));
    offer(&mut prov, "Alert", show_flag(&w.alert));
    offer(&mut prov, "SPI / ident", show_flag(&w.spi));
    assert(domain::fields_text(prov@) =~= w.provenance());
    push_group(&mut groups, "Provenance", prov);

    let mut airframe: Vec<(String, String)> = Vec::new();
    assert(domain::fields_text(airframe@) =~= Seq::empty());
    offer(&mut airframe, "Year", w.year.clone());
    assert(domain::fields_text(airframe@) =~= w.airframe());
    push_group(&mut groups, "Airframe", airframe);

    assert(none =~= Seq::empty());
    assert(domain::groups_text(groups@) =~= w.telemetry());
    groups
}

/// A string without white space around it; an empty one counts as missing.
pub fn trimmed_nonempty(s: Option<String>) -> (r: Option<String>)
    ensures
        text::opt(r) == meaningful(text::opt(s)),
{
    match s {
        Some(t) => {
            let u = text::trim(t.as_str());
            if u.as_str().is_empty() {
                None
            } else {
                Some(u)
            }
        },
        None => None,
    }
}

/// The label of an emitter category code.
pub fn decode_category(code: &str) -> (r: String)
    ensures
        r@ == category_label(code@),
{
    let label = if text::same(code, "A1") {
        "light"
    } else if text::same(code, "A2") {
        "small"
    } else if text::same(code, "A3") {
        "large"
    } else if text::same(code, "A4") {
        "high-vortex large"
    } else if text::same(code, "A5") {
        "heavy"
    } else if text::same(code, "A6") {
        "high performance"
    } else if text::same(code, "A7") {
        "rotorcraft"
    } else if text::same(code, "B1") {
        "glider / sailplane"
    } else if text::same(code, "B2") {
        "lighter-than-air"
    } else if text::same(code, "B3") {
        "parachutist"
    } else if text::same(code, "B4") {
        "ultralight / hang-glider"
    } else if text::same(code, "B6") {
        "unmanned"
    } else if text::same(code, "B7") {
        "space vehicle"
    } else if text::same(code, "C1") {
        "surface — emergency vehicle"
    } else if text::same(code, "C2") {
        "surface — service vehicle"
    } else if text::same(code, "C3") {
        "point obstacle"
    } else if text::same(code, "A0") || text::same(code, "B0") || text::same(code, "C0") {
        "no info"
    } else {
        code
    };
    label.to_owned()
}

/// The readable label of the way a position was derived.
pub fn decode_data_type(t: &str) -> (r: &str)
    ensures
        r@ == data_type_label(t@),
{
    if text::same(t, "adsb_icao") {
        "ADS-B (ICAO)"
    } else if text::same(t, "adsb_icao_nt") {
        "ADS-B (ICAO, non-transponder)"
    } else if text::same(t, "adsr_icao") {
        "ADS-R (ICAO)"
    } else if text::same(t, "tisb_icao") {
        "TIS-B (ICAO)"
    } else if text::same(t, "adsc") {
        "ADS-C"
    } else if text::same(t, "mlat") {
        "MLAT"
    } else if text::same(t, "mode_s") {
        "Mode S"
    } else if text::same(t, "adsb_other") {
        "ADS-B (other)"
    } else if text::same(t, "adsr_other") {
        "ADS-R (other)"
    } else if text::same(t, "tisb_other") {
        "TIS-B (other)"
    } else if text::same(t, "tisb_trackfile") {
        "TIS-B trackfile"
    } else {
        t
    }
}

/// Whether an aircraft is on the ground.
pub fn is_on_ground(w: &WireAircraft) -> (r: bool)
    ensures
        r == w.grounded(),
{
    match &w.alt_baro {
        Some(Altitude::Label(s)) => text::eq_ignore_ascii_case(s.as_str(), "ground"),
        _ => false,
    }
}

/// Whether an aircraft can be mapped: one that becomes a flight has a position whose age is a
/// length of time.
pub fn is_mappable(w: &WireAircraft) -> (r: bool)
    ensures
        r == w.mappable(),
{
    if is_on_ground(w) || w.lat.is_none() || w.lon.is_none() {
        return true;
    }
    match &w.seen_pos {
        Some(s) => s.is_nan() || s.is_below_int(0) || Span::from_seconds(s).is_some(),
        None => true,
    }
}

fn position_age(w: &WireAircraft) -> (r: Span)
    requires
        w.age_expressible(),
    ensures
        r.nanos == w.age_nanos(),
{
    match &w.seen_pos {
        Some(s) => {
            if s.is_nan() || s.is_below_int(0) {
                return Span { nanos: 0 };
            }
            match Span::from_seconds(s) {
                Some(age) => age,
                None => Span { nanos: 0 },
            }
        },
        None => Span { nanos: 0 },
    }
}

/// The flight that an airborne aircraft is; `None` where it has no position.
pub fn to_flight(w: WireAircraft) -> (r: Option<Flight>)
    requires
        w.lat is Some && w.lon is Some ==> w.age_expressible(),
    ensures
        r is Some <==> w.lat is Some && w.lon is Some,
        r is Some ==> w.becomes(r->0),
        r is Some ==> r->0.hex@ == w.hex@,
        r is Some ==> Some(r->0.position.lat) == w.lat && Some(r->0.position.lon) == w.lon,
        r is Some ==> r->0.groundspeed_kt == w.gs && r->0.track_deg == w.track,
        r is Some ==> r->0.vertical_rate_fpm == (if w.baro_rate is Some {
            w.baro_rate
        } else {
            w.geom_rate
        }),
{
    let lat = match w.lat {
        Some(lat) => lat,
        None => return None,
    };
    let lon = match w.lon {
        Some(lon) => lon,
        None => return None,
    };
    let details = build_details(&w);
    let reported_age = position_age(&w);
    let altitude_ft = feet_of(&w.alt_baro);
    let geometric_altitude_ft = feet_of(&w.alt_geom);
    let vertical_rate_fpm = match w.baro_rate {
        Some(rate) => Some(rate),
        None => w.geom_rate,
    };
    let emergency = match trimmed_nonempty(w.emergency) {
        Some(e) => if text::eq_ignore_ascii_case(e.as_str(), "none") {
            None
        } else {
            Some(e)
        },
        None => None,
    };
    let emitter_category = match trimmed_nonempty(w.category) {
        Some(c) => Some(decode_category(c.as_str())),
        None => None,
    };
    Some(
        Flight {
            hex: w.hex,
            ident: trimmed_nonempty(w.flight),
            aircraft_type: trimmed_nonempty(w.t),
            model: trimmed_nonempty(w.desc),
            registration: trimmed_nonempty(w.r),
            operator: trimmed_nonempty(w.own_op),
            position: LatLon::new(lat, lon),
            altitude_ft,
            geometric_altitude_ft,
            groundspeed_kt: w.gs,
            track_deg: w.track,
            vertical_rate_fpm,
            squawk: trimmed_nonempty(w.squawk),
            emergency,
            emitter_category,
            reported_age,
            details,
        },
    )
}

/// Which of the first `n` aircraft are flights: those off the ground with a position.
pub open spec fn airborne(ac: Seq<WireAircraft>, n: nat) -> Seq<int>
    decreases n,
{
    if n == 0 {
        Seq::empty()
    } else {
        let before = airborne(ac, (n - 1) as nat);
        let w = ac[n - 1];
        if w.airborne() {
            before.push(n - 1)
        } else {
            before
        }
    }
}

/// The addresses of those of the first `n` aircraft that are on the ground.
pub open spec fn grounds(ac: Seq<WireAircraft>, n: nat) -> Seq<Seq<char>>
    decreases n,
{
    if n == 0 {
        Seq::empty()
    } else {
        let before = grounds(ac, (n - 1) as nat);
        if ac[n - 1].grounded() {
            before.push(ac[n - 1].hex@)
        } else {
            before
        }
    }
}

/// Whether `flights` are the flights among the first `n` aircraft, in order.
pub open spec fn are_flights_of(flights: Seq<Flight>, ac: Seq<WireAircraft>, n: nat) -> bool {
    &&& flights.len() == airborne(ac, n).len()
    &&& forall|k: int|
        0 <= k < flights.len() ==> ac[airborne(ac, n)[k]].becomes(#[trigger] flights[k])
}

/// The snapshot that a decoded answer of the feed is: airborne aircraft with a position become
/// flights, aircraft on the ground leave their address. An answer that could not be decoded
/// is an error with the decoder's words.
pub fn to_snapshot(decoded: Result<Vec<WireAircraft>, String>, taken_at: Moment) -> (r: Result<
    Snapshot,
    SourceError,
>)
    requires
        decoded is Ok ==> forall|i: int|
            0 <= i < decoded->Ok_0@.len() ==> (#[trigger] decoded->Ok_0@[i]).mappable(),
    ensures
        decoded is Err ==> r == Err::<Snapshot, SourceError>(SourceError::Decode(decoded->Err_0)),
        decoded is Ok ==> r is Ok && ({
            let ac = decoded->Ok_0@;
            &&& are_flights_of(r->Ok_0.flights@, ac, ac.len())
            &&& text::all(r->Ok_0.on_ground@) == grounds(ac, ac.len())
            &&& r->Ok_0.taken_at == taken_at
        }),
{
    let mut rest = match decoded {
        Ok(ac) => ac,
        Err(e) => return Err(SourceError::Decode(e)),
    };
    let ghost ac = rest@;
    let ghost mut done: nat = 0;
    let mut flights: Vec<Flight> = Vec::new();
    let mut on_ground: Vec<String> = Vec::new();
    assert(ac.skip(0) =~= ac);
    assert(text::all(on_ground@) =~= grounds(ac, 0));
    while rest.len() > 0
        invariant
            done <= ac.len(),
            rest@ == ac.skip(done as int),
            are_flights_of(flights@, ac, done),
            text::all(on_ground@) == grounds(ac, done),
            forall|i: int| 0 <= i < ac.len() ==> (#[trigger] ac[i]).mappable(),
        decreases rest.len(),
    {
        let ghost known = flights@;
        let ghost grounded = text::all(on_ground@);
        let w = rest.remove(0);
        assert(w == ac[done as int]);
        assert(rest@ =~= ac.skip((done + 1) as int));
        if is_on_ground(&w) {
            on_ground.push(w.hex);
            assert(text::all(on_ground@) =~= grounded.push(ac[done as int].hex@));
        } else {
            match to_flight(w) {
                Some(f) => {
                    flights.push(f);
                },
                None => {},
            }
        }
        proof {
            done = done + 1;
            let picked = airborne(ac, done);
            assert forall|k: int| 0 <= k < flights@.len() implies ac[picked[k]].becomes(
                #[trigger] flights@[k],
            ) by {
                if k < known.len() {
                    assert(flights@[k] == known[k]);
                    assert(picked[k] == airborne(ac, (done - 1) as nat)[k]);
                }
            }
        }
    }
    assert(done == ac.len());
    Ok(Snapshot::with_ground(flights, on_ground, taken_at))
}

/// The public feeds answer for at most this radius, in nautical miles.
pub const MAX_RADIUS_NM: i32 = 250;

/// A radius rounded to whole miles, a half going up, and moved into what a feed accepts.
pub open spec fn asked_radius(radius_nm: Number) -> int {
    if radius_nm.nan() {
        1
    } else if !radius_nm.finite() {
        if radius_nm.negative() {
            1
        } else {
            MAX_RADIUS_NM as int
        }
    } else {
        crate::span::clamped(
            (2 * radius_nm.units() + crate::number::one()) / (2 * crate::number::one() as int),
            1,
            MAX_RADIUS_NM as int,
        )
    }
}

fn round_radius(radius_nm: &Number) -> (r: u32)
    ensures
        r == asked_radius(*radius_nm),
{
    let mut n: i32 = 1;
    if radius_nm.is_nan() {
        return 1;
    }
    while n < MAX_RADIUS_NM && !radius_nm.is_below_halves(2 * n + 1)
        invariant
            1 <= n <= MAX_RADIUS_NM,
            !radius_nm.nan(),
            n > 1 ==> !radius_nm.below_halves(2 * n - 1),
        decreases MAX_RADIUS_NM - n,
    {
        n = n + 1;
    }
    proof {
        if radius_nm.finite() {
            let u = radius_nm.units();
            let o = crate::number::one() as int;
            vstd::arithmetic::power2::lemma_pow2_pos(1074);
            let q = (2 * u + o) / (2 * o);
            vstd::arithmetic::div_mod::lemma_fundamental_div_mod(2 * u + o, 2 * o);
            let rem = (2 * u + o) % (2 * o);
            assert(n > 1 ==> 2 * u >= (2 * n - 1) * o);
            assert(n < MAX_RADIUS_NM ==> 2 * u < (2 * n + 1) * o);
            assert(n > 1 ==> q >= n) by (nonlinear_arith)
                requires
                    n > 1 ==> 2 * u >= (2 * n - 1) * o,
                    2 * u + o == (2 * o) * q + rem,
                    0 <= rem < 2 * o,
                    o > 0,
            ;
            assert(n < MAX_RADIUS_NM ==> q <= n) by (nonlinear_arith)
                requires
                    n < MAX_RADIUS_NM ==> 2 * u < (2 * n + 1) * o,
                    2 * u + o == (2 * o) * q + rem,
                    0 <= rem < 2 * o,
                    o > 0,
            ;
        }
    }
    n as u32
}

/// The address of a point query.
pub open spec fn point_url(base_url: Seq<char>, center: LatLon, radius_nm: Number) -> Seq<char> {
    base_url + "/point/"@ + decimal::fixed_text(center.lat, 6) + "/"@ + decimal::fixed_text(
        center.lon,
        6,
    ) + "/"@ + decimal::dec(asked_radius(radius_nm) as nat)
}

/// What the feed's status says of its answer.
#[derive(Debug)]
pub enum Reply {
    /// The body is the answer.
    Body,
    /// The source asks to slow down, for as long as its header says.
    SlowDown,
    /// There is no answer.
    Failed(SourceError),
}

/// What a status code says of an answer.
pub fn classify_status(status: u16) -> (r: Reply)
    ensures
        r is Body <==> 200 <= status <= 299,
        r is SlowDown <==> status == 429,
        r is Failed ==> ({
            let e = r->Failed_0;
            &&& e is Auth <==> status == 401 || status == 403
            &&& e is Unavailable <==> 500 <= status <= 599
            &&& !(e is Auth) && !(e is Unavailable) ==> e is Decode && e->Decode_0@
                == "unexpected HTTP status "@ + decimal::dec(status as nat)
        }),
{
    if 200 <= status && status <= 299 {
        Reply::Body
    } else if status == 429 {
        Reply::SlowDown
    } else if status == 401 || status == 403 {
        Reply::Failed(SourceError::Auth)
    } else if 500 <= status && status <= 599 {
        Reply::Failed(SourceError::Unavailable)
    } else {
        Reply::Failed(
            SourceError::Decode(
                text::concat(
                    "unexpected HTTP status ",
                    decimal::decimal(status as u128).as_str(),
                ),
            ),
        )
    }
}

/// How a request may fail on its way.
#[derive(Debug)]
pub enum TransportError {
    Timeout,
    Io,
    ConnectionFailed,
    HostNotFound,
    /// Anything else, in the transport's own words.
    Other(String),
}

/// A failure on the way may pass, where it is one of the network's.
pub fn map_transport_error(err: TransportError) -> (r: SourceError)
    ensures
        r == (match err {
            TransportError::Other(words) => SourceError::Decode(words),
            _ => SourceError::Transient,
        }),
{
    match err {
        TransportError::Other(words) => SourceError::Decode(words),
        _ => SourceError::Transient,
    }
}

/// The delay that a `Retry-After` header names, given the number of seconds it holds; a number
/// that is negative or not finite names none.
pub fn retry_after(secs: Option<Number>) -> (r: Option<Span>)
    requires
        secs is Some && secs->0.finite() && secs->0.at_least_int(0) ==> Span::expressible(secs->0),
    ensures
        r is Some <==> secs is Some && secs->0.finite() && secs->0.at_least_int(0),
        r is Some ==> r->0.nanos == crate::number::round_half_even(
            (secs->0.units() * crate::span::SECOND) as nat,
            crate::number::one(),
        ),
{
    match secs {
        Some(s) => if s.is_finite() && s.is_at_least_int(0) {
            Span::from_seconds(&s)
        } else {
            None
        },
        None => None,
    }
}

/// A source of the readsb family.
#[derive(Debug)]
pub struct ReadsbSource {
    name: String,
    base_url: String,
    min_interval: Span,
}

impl ReadsbSource {
    /// The name to show.
    pub closed spec fn shown_name(self) -> Seq<char> {
        self.name@
    }

    /// The address without a slash behind it.
    pub closed spec fn base(self) -> Seq<char> {
        self.base_url@
    }

    pub closed spec fn floor(self) -> Span {
        self.min_interval
    }

    /// A source at an address, whose trailing slashes do not count.
    pub fn new(name: &str, base_url: String, min_interval: Span) -> (r: ReadsbSource)
        ensures
            r.shown_name() == name@,
            r.base() == text::without_trailing(base_url@, '/'),
            r.floor() == min_interval,
    {
        ReadsbSource {
            name: name.to_owned(),
            base_url: text::trim_end_char(base_url.as_str(), '/'),
            min_interval,
        }
    }

    /// The name to show.
    pub fn name(&self) -> (r: &str)
        ensures
            r@ == self.shown_name(),
    {
        self.name.as_str()
    }

    /// The shortest time between two polls.
    pub fn min_interval(&self) -> (r: Span)
        ensures
            r == self.floor(),
    {
        self.min_interval
    }

    /// The address to ask for the flights of an area.
    pub fn query_url(&self, center: &LatLon, radius_nm: &Number) -> (r: String)
        ensures
            r@ == point_url(self.base(), *center, *radius_nm),
    {
        let mut url = self.base_url.clone();
        url.append("/point/");
        url.append(decimal::fixed(&center.lat, 6).as_str());
        url.append("/");
        url.append(decimal::fixed(&center.lon, 6).as_str());
        url.append("/");
        url.append(decimal::decimal(round_radius(radius_nm) as u128).as_str());
        url
    }
}

/// Only an aircraft off the ground and with a position becomes a flight.
pub proof fn law_only_airborne_aircraft_become_flights(ac: Seq<WireAircraft>, n: nat, k: int)
    requires
        n <= ac.len(),
        0 <= k < airborne(ac, n).len(),
    ensures
        0 <= airborne(ac, n)[k] < n,
        !ac[airborne(ac, n)[k]].grounded(),
        ac[airborne(ac, n)[k]].lat is Some && ac[airborne(ac, n)[k]].lon is Some,
    decreases n,
{
    let before = airborne(ac, (n - 1) as nat);
    if k < before.len() {
        law_only_airborne_aircraft_become_flights(ac, (n - 1) as nat, k);
        assert(airborne(ac, n)[k] == before[k]);
    }
}

/// No aircraft is passed over: off the ground and with a position it is a flight, on the ground
/// its address is noted.
pub proof fn law_no_aircraft_is_passed_over(ac: Seq<WireAircraft>, n: nat, i: int)
    requires
        0 <= i < n <= ac.len(),
    ensures
        !ac[i].grounded() && ac[i].lat is Some && ac[i].lon is Some ==> airborne(ac, n).contains(
            i,
        ),
        ac[i].grounded() ==> grounds(ac, n).contains(ac[i].hex@),
    decreases n,
{
    let m = (n - 1) as nat;
    if i == m {
        if !ac[i].grounded() && ac[i].lat is Some && ac[i].lon is Some {
            assert(airborne(ac, n).last() == i);
        }
        if ac[i].grounded() {
            assert(grounds(ac, n).last() == ac[i].hex@);
        }
    } else {
        law_no_aircraft_is_passed_over(ac, m, i);
        if airborne(ac, m).contains(i) {
            let k = choose|k: int| 0 <= k < airborne(ac, m).len() && airborne(ac, m)[k] == i;
            assert(airborne(ac, n)[k] == i);
        }
        if grounds(ac, m).contains(ac[i].hex@) {
            let k = choose|k: int| 0 <= k < grounds(ac, m).len() && grounds(ac, m)[k] == ac[i].hex@;
            assert(grounds(ac, n)[k] == ac[i].hex@);
        }
    }
}

} // verus!
