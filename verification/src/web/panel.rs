//! The list and the status block of the page.

use crate::api::{Flight, Health, Meta, PictureResponse};
use crate::decimal;
use crate::display;
use crate::text;
use crate::web::app::Conn;
use crate::web::display::{self as colors, COL_ANON, COL_APPROACH, COL_HOME, COL_PACING, COL_RECEDE};
use vstd::prelude::*;

verus! {

/// One row of the list.
#[derive(Debug)]
pub struct FlightRow {
    pub hex: String,
    pub name: String,
    pub kind: String,
    pub pos: String,
    pub alt: String,
    pub glyph: &'static str,
    pub glyph_color: &'static str,
    pub gs: String,
    pub arrow: &'static str,
    pub arrow_color: &'static str,
    pub cpa: String,
    pub ident_class: &'static str,
    pub row_class: &'static str,
}

/// The arrow of a row, its colour, and when and how closely the flight will pass.
pub open spec fn arrow_of(t: Flight) -> (Seq<char>, Seq<char>, Seq<char>) {
    match t.cpa {
        Some(c) => if c.approaching() {
            (
                "▲"@,
                COL_APPROACH@,
                decimal::fixed_text(c.cpa_distance_nm, 0) + "nm/"@ + decimal::fixed_text(
                    c.time_to_cpa_s,
                    0,
                ) + "s"@,
            )
        } else {
            ("▼"@, COL_RECEDE@, ""@)
        },
        None => ("·"@, COL_ANON@, ""@),
    }
}

/// Whether `r` is the row of a flight.
pub open spec fn is_row_of(r: FlightRow, t: Flight, selected: bool, pacing: bool) -> bool {
    &&& r.hex == t.hex
    &&& r.name@ == display::label_text(t.ident, t.hex)
    &&& r.kind@ == (match t.aircraft_type {
        Some(k) => k@,
        None => ""@,
    })
    &&& r.pos@ == decimal::fixed_text(t.distance_nm, 1) + "nm "@ + decimal::degrees_text(
        t.bearing_deg,
    ) + "°"@
    &&& r.alt@ == (match t.altitude_ft {
        Some(a) => decimal::fixed_text(a, 0) + "ft"@,
        None => "?"@,
    })
    &&& r.glyph@ == display::glyph_text(t.vertical_trend)
    &&& r.glyph_color@ == colors::trend_color(t.vertical_trend)
    &&& r.gs@ == (match t.groundspeed_kt {
        Some(g) => decimal::fixed_text(g, 0) + "kt"@,
        None => ""@,
    })
    &&& (r.arrow@, r.arrow_color@, r.cpa@) == arrow_of(t)
    &&& r.ident_class@ == (if pacing {
        "cell ident pacing"@
    } else if t.ident is None {
        "cell ident anon"@
    } else {
        "cell ident"@
    })
    &&& r.row_class@ == (if selected {
        "flight-row selected"@
    } else {
        "flight-row"@
    })
}

/// The row of a flight.
pub fn flight_row(t: &Flight, is_sel: bool, is_pacing: bool) -> (r: FlightRow)
    ensures
        is_row_of(r, *t, is_sel, is_pacing),
{
    let kind = match &t.aircraft_type {
        Some(k) => k.clone(),
        None => "".to_owned(),
    };
    let mut pos = text::concat3(
        decimal::fixed(&t.distance_nm, 1).as_str(),
        "nm ",
        decimal::degrees(&t.bearing_deg).as_str(),
    );
    pos.append("°");
    let alt = match &t.altitude_ft {
        Some(a) => text::concat(decimal::fixed(a, 0).as_str(), "ft"),
        None => "?".to_owned(),
    };
    let (glyph, glyph_color) = colors::trend_glyph(t.vertical_trend);
    let gs = match &t.groundspeed_kt {
        Some(g) => text::concat(decimal::fixed(g, 0).as_str(), "kt"),
        None => "".to_owned(),
    };
    let (arrow, arrow_color, cpa) = match &t.cpa {
        Some(c) => if colors::approaching(c) {
            let mut s = decimal::fixed(&c.cpa_distance_nm, 0);
            s.append("nm/");
            s.append(decimal::fixed(&c.time_to_cpa_s, 0).as_str());
            s.append("s");
            ("▲", COL_APPROACH, s)
        } else {
            ("▼", COL_RECEDE, "".to_owned())
        },
        None => ("·", COL_ANON, "".to_owned()),
    };
    let ident_class = if is_pacing {
        "cell ident pacing"
    } else if t.ident.is_none() {
        "cell ident anon"
    } else {
        "cell ident"
    };
    let row_class = if is_sel {
        "flight-row selected"
    } else {
        "flight-row"
    };
    FlightRow {
        hex: t.hex.clone(),
        name: display::label(t),
        kind,
        pos,
        alt,
        glyph,
        glyph_color,
        gs,
        arrow,
        arrow_color,
        cpa,
        ident_class,
        row_class,
    }
}

/// The flights of a picture.
pub open spec fn flights_of(picture: Option<PictureResponse>) -> Seq<Flight> {
    match picture {
        Some(p) => p.tracks@,
        None => Seq::empty(),
    }
}

/// The address of the flight that paces.
pub open spec fn pacing_of(picture: Option<PictureResponse>) -> Option<String> {
    match picture {
        Some(p) => p.pacing_hex,
        None => None,
    }
}

/// The rows of the list, in the order of the picture.
pub fn list_rows(picture: &Option<PictureResponse>, selected: &Option<String>) -> (r: Vec<FlightRow>)
    ensures
        r@.len() == flights_of(*picture).len(),
        forall|i: int|
            0 <= i < r@.len() ==> is_row_of(
                #[trigger] r@[i],
                flights_of(*picture)[i],
                display::is_hex(flights_of(*picture)[i].hex, *selected),
                display::is_hex(flights_of(*picture)[i].hex, pacing_of(*picture)),
            ),
{
    let mut rows: Vec<FlightRow> = Vec::new();
    match picture {
        Some(p) => {
            let mut i: usize = 0;
            while i < p.tracks.len()
                invariant
                    i <= p.tracks.len(),
                    *picture == Some(*p),
                    rows@.len() == i,
                    forall|k: int|
                        0 <= k < i ==> is_row_of(
                            #[trigger] rows@[k],
                            p.tracks@[k],
                            display::is_hex(p.tracks@[k].hex, *selected),
                            display::is_hex(p.tracks@[k].hex, p.pacing_hex),
                        ),
                decreases p.tracks.len() - i,
            {
                let t = &p.tracks[i];
                let is_sel = display::names(&t.hex, selected);
                let is_pacing = display::names(&t.hex, &p.pacing_hex);
                rows.push(flight_row(t, is_sel, is_pacing));
                i = i + 1;
            }
        },
        None => {},
    }
    rows
}

/// The list's title.
pub fn list_title(picture: &Option<PictureResponse>) -> (r: String)
    ensures
        r@ == "flights · "@ + decimal::dec(flights_of(*picture).len()),
{
    let count: usize = match picture {
        Some(p) => p.tracks.len(),
        None => 0,
    };
    text::concat("flights · ", decimal::decimal(count as u128).as_str())
}

/// The status block.
#[derive(Debug)]
pub struct StatusBlock {
    pub source: String,
    /// The state in brackets.
    pub state: String,
    pub state_color: &'static str,
    pub counts: String,
    pub nearest: String,
    pub pacing: String,
    pub relevance: String,
    /// The selected flight; without one, a hint stands in its place.
    pub selected: Option<String>,
    pub hint: &'static str,
    pub error: Option<String>,
}

/// The state's label and colour, and the failure that goes with it. A server that cannot be
/// reached outranks what it last said of its data.
pub open spec fn state_of(conn: Conn, picture: Option<PictureResponse>) -> (
    Seq<char>,
    Seq<char>,
    Option<Seq<char>>,
) {
    match conn {
        Conn::Down(e) => ("UNREACHABLE"@, COL_PACING@, Some("! "@ + e@)),
        Conn::Connecting => ("CONNECTING"@, COL_HOME@, None),
        Conn::Up => match picture {
            Some(p) => match p.health {
                Health::Live => ("LIVE"@, COL_APPROACH@, None),
                Health::Stale => ("STALE"@, COL_HOME@, marked(p.last_error)),
                Health::NoData => ("NO DATA"@, COL_PACING@, marked(p.last_error)),
            },
            None => ("NO DATA"@, COL_PACING@, None),
        },
    }
}

/// A failure with its mark.
pub open spec fn marked(e: Option<String>) -> Option<Seq<char>> {
    match e {
        Some(words) => Some("! "@ + words@),
        None => None,
    }
}

fn mark(e: &Option<String>) -> (r: Option<String>)
    ensures
        text::opt(r) == marked(*e),
{
    match e {
        Some(words) => Some(text::concat("! ", words.as_str())),
        None => None,
    }
}

fn show_state(conn: &Conn, picture: &Option<PictureResponse>) -> (r: (
    &'static str,
    &'static str,
    Option<String>,
))
    ensures
        (r.0@, r.1@, text::opt(r.2)) == state_of(*conn, *picture),
{
    match conn {
        Conn::Down(e) => ("UNREACHABLE", COL_PACING, Some(text::concat("! ", e.as_str()))),
        Conn::Connecting => ("CONNECTING", COL_HOME, None),
        Conn::Up => match picture {
            Some(p) => match p.health {
                Health::Live => ("LIVE", COL_APPROACH, None),
                Health::Stale => ("STALE", COL_HOME, mark(&p.last_error)),
                Health::NoData => ("NO DATA", COL_PACING, mark(&p.last_error)),
            },
            None => ("NO DATA", COL_PACING, None),
        },
    }
}

/// Whether `s` is the status block of what is known.
pub open spec fn is_status_of(
    s: StatusBlock,
    meta: Option<Meta>,
    picture: Option<PictureResponse>,
    conn: Conn,
    selected: Option<String>,
) -> bool {
    let state = state_of(conn, picture);
    let flights = flights_of(picture);
    &&& s.source@ == (match meta {
        Some(m) => m.source@,
        None => "—"@,
    })
    &&& s.state@ == "["@ + state.0 + "]"@
    &&& s.state_color@ == state.1
    &&& s.counts@ == "  "@ + decimal::dec(flights.len()) + " flights · "@ + (match picture {
        Some(p) => display::or_dash(p.snapshot_age_s, 0, "s ago"@),
        None => "—"@,
    })
    &&& s.nearest@ == "nearest  "@ + (if flights.len() == 0 {
        "(none)"@
    } else {
        display::position_text(
            flights[0].ident,
            flights[0].hex,
            flights[0].aircraft_type,
            flights[0].distance_nm,
            flights[0].bearing_deg,
            flights[0].altitude_ft,
        )
    })
    &&& s.pacing@ == "pacing   "@ + (match display::named(flights, pacing_of(picture)) {
        Some(f) => display::approach_text(f.ident, f.hex, display::cpa_pair(f.cpa)),
        None => "quiet — backing off"@,
    })
    &&& s.relevance@ == "relevance "@ + (match meta {
        Some(m) => decimal::fixed_text(m.relevance_nm, 0) + "nm"@,
        None => "—"@,
    })
    &&& text::opt(s.selected) == (match display::named(flights, selected) {
        Some(t) => Some(display::selected_text(t)),
        None => None,
    })
    &&& s.hint@ == "click a flight · ↑/↓ select · Enter detail · Esc clear"@
    &&& text::opt(s.error) == state.2
}

fn tracks_of(picture: &Option<PictureResponse>) -> (r: &[Flight])
    ensures
        r@ == flights_of(*picture),
{
    match picture {
        Some(p) => p.tracks.as_slice(),
        None => {
            let none: &[Flight] = &[];
            assert(none@ =~= Seq::<Flight>::empty());
            none
        },
    }
}

/// The status block of what is known.
pub fn status(
    meta: &Option<Meta>,
    picture: &Option<PictureResponse>,
    conn: &Conn,
    selected: &Option<String>,
) -> (r: StatusBlock)
    ensures
        is_status_of(r, *meta, *picture, *conn, *selected),
{
    let (label, state_color, error) = show_state(conn, picture);
    let tracks = tracks_of(picture);
    let source = match meta {
        Some(m) => m.source.clone(),
        None => "—".to_owned(),
    };
    let relevance = match meta {
        Some(m) => text::concat(decimal::fixed(&m.relevance_nm, 0).as_str(), "nm"),
        None => "—".to_owned(),
    };
    let age = match picture {
        Some(p) => display::number_or_dash(&p.snapshot_age_s, 0, "s ago"),
        None => "—".to_owned(),
    };
    let mut counts = text::concat3(
        "  ",
        decimal::decimal(tracks.len() as u128).as_str(),
        " flights · ",
    );
    counts.append(age.as_str());
    let nearest = if tracks.len() == 0 {
        "(none)".to_owned()
    } else {
        display::fmt_position(&tracks[0])
    };
    let pacing_hex = match picture {
        Some(p) => p.pacing_hex.clone(),
        None => None,
    };
    let pacing = match display::find_named(tracks, &pacing_hex) {
        Some(f) => display::fmt_pacing(f),
        None => "quiet — backing off".to_owned(),
    };
    let chosen = match display::find_named(tracks, selected) {
        Some(t) => Some(display::fmt_selected(t)),
        None => None,
    };
    StatusBlock {
        source,
        state: text::concat3("[", label, "]"),
        state_color,
        counts,
        nearest: text::concat("nearest  ", nearest.as_str()),
        pacing: text::concat("pacing   ", pacing.as_str()),
        relevance: text::concat("relevance ", relevance.as_str()),
        selected: chosen,
        hint: "click a flight · ↑/↓ select · Enter detail · Esc clear",
        error,
    }
}

/// A server that cannot be reached is shown as such, whatever it last said of its data.
pub proof fn law_unreachable_outranks_health(
    s: StatusBlock,
    meta: Option<Meta>,
    picture: Option<PictureResponse>,
    conn: Conn,
    selected: Option<String>,
)
    requires
        is_status_of(s, meta, picture, conn, selected),
        conn is Down,
    ensures
        s.state@ == "["@ + "UNREACHABLE"@ + "]"@,
        text::opt(s.error) == Some("! "@ + conn->Down_0@),
{
}

} // verus!
