//! How the clients put an answer into words: labels, glyphs and one-line summaries.

use crate::api::{ContactState, Cpa, Flight, VerticalTrend};
use crate::decimal;
use crate::number::Number;
use crate::text;
use vstd::prelude::*;

verus! {

/// A flight's callsign, or its address in brackets.
pub open spec fn label_text(ident: Option<String>, hex: String) -> Seq<char> {
    match ident {
        Some(callsign) => callsign@,
        None => "["@ + hex@ + "]"@,
    }
}

/// A flight's callsign, or its address in brackets.
pub fn label_of(ident: &Option<String>, hex: &String) -> (r: String)
    ensures
        r@ == label_text(*ident, *hex),
{
    match ident {
        Some(callsign) => callsign.clone(),
        None => text::concat3("[", hex.as_str(), "]"),
    }
}

/// A flight's callsign, or its address in brackets.
pub fn label(f: &Flight) -> (r: String)
    ensures
        r@ == label_text(f.ident, f.hex),
{
    label_of(&f.ident, &f.hex)
}

/// The glyph of a vertical trend; nothing for an unknown one.
pub open spec fn glyph_text(trend: VerticalTrend) -> Seq<char> {
    match trend {
        VerticalTrend::Climb => "↑"@,
        VerticalTrend::Descend => "↓"@,
        VerticalTrend::Level => "–"@,
        VerticalTrend::Unknown => ""@,
    }
}

/// The glyph of a vertical trend; nothing for an unknown one.
pub fn trend_glyph(trend: VerticalTrend) -> (r: &'static str)
    ensures
        r@ == glyph_text(trend),
{
    match trend {
        VerticalTrend::Climb => "↑",
        VerticalTrend::Descend => "↓",
        VerticalTrend::Level => "–",
        VerticalTrend::Unknown => "",
    }
}

/// A text with a space in front, where there is one.
pub open spec fn spaced(s: Option<String>) -> Seq<char> {
    match s {
        Some(t) => " "@ + t@,
        None => ""@,
    }
}

/// Where a flight is: label, type, distance, bearing and altitude.
pub open spec fn position_text(
    ident: Option<String>,
    hex: String,
    kind: Option<String>,
    distance_nm: Number,
    bearing_deg: Number,
    altitude_ft: Option<Number>,
) -> Seq<char> {
    label_text(ident, hex) + spaced(kind) + " — "@ + decimal::fixed_text(distance_nm, 1)
        + " nm @ "@ + decimal::degrees_text(bearing_deg) + "° ("@ + (match altitude_ft {
        Some(a) => decimal::fixed_text(a, 0) + " ft"@,
        None => "alt ?"@,
    }) + ")"@
}

/// Where a flight is: label, type, distance, bearing and altitude.
pub fn position_line(
    ident: &Option<String>,
    hex: &String,
    kind: &Option<String>,
    distance_nm: &Number,
    bearing_deg: &Number,
    altitude_ft: &Option<Number>,
) -> (r: String)
    ensures
        r@ == position_text(*ident, *hex, *kind, *distance_nm, *bearing_deg, *altitude_ft),
{
    let mut s = label_of(ident, hex);
    match kind {
        Some(k) => s.append(text::concat(" ", k.as_str()).as_str()),
        None => s.append(""),
    }
    s.append(" — ");
    s.append(decimal::fixed(distance_nm, 1).as_str());
    s.append(" nm @ ");
    s.append(decimal::degrees(bearing_deg).as_str());
    s.append("° (");
    match altitude_ft {
        Some(a) => s.append(text::concat(decimal::fixed(a, 0).as_str(), " ft").as_str()),
        None => s.append("alt ?"),
    }
    s.append(")");
    s
}

/// When and how closely a flight passes.
pub open spec fn approach_text(
    ident: Option<String>,
    hex: String,
    cpa: Option<(Number, Number)>,
) -> Seq<char> {
    match cpa {
        Some((time_s, distance_nm)) => label_text(ident, hex) + " — CPA "@ + decimal::fixed_text(
            distance_nm,
            1,
        ) + " nm in "@ + decimal::fixed_text(time_s, 0) + "s"@,
        None => label_text(ident, hex),
    }
}

/// When and how closely a flight passes, given the time and the distance of its CPA.
pub fn approach_line(ident: &Option<String>, hex: &String, cpa: Option<(Number, Number)>) -> (r:
    String)
    ensures
        r@ == approach_text(*ident, *hex, cpa),
{
    match cpa {
        Some((time_s, distance_nm)) => {
            let mut s = label_of(ident, hex);
            s.append(" — CPA ");
            s.append(decimal::fixed(&distance_nm, 1).as_str());
            s.append(" nm in ");
            s.append(decimal::fixed(&time_s, 0).as_str());
            s.append("s");
            s
        },
        None => label_of(ident, hex),
    }
}

/// The time and the distance of a CPA.
pub open spec fn cpa_pair(cpa: Option<Cpa>) -> Option<(Number, Number)> {
    match cpa {
        Some(c) => Some((c.time_to_cpa_s, c.cpa_distance_nm)),
        None => None,
    }
}

/// Where a flight is, in one line.
pub fn fmt_position(f: &Flight) -> (r: String)
    ensures
        r@ == position_text(
            f.ident,
            f.hex,
            f.aircraft_type,
            f.distance_nm,
            f.bearing_deg,
            f.altitude_ft,
        ),
{
    position_line(
        &f.ident,
        &f.hex,
        &f.aircraft_type,
        &f.distance_nm,
        &f.bearing_deg,
        &f.altitude_ft,
    )
}

/// When and how closely a flight passes, in one line.
pub fn fmt_pacing(f: &Flight) -> (r: String)
    ensures
        r@ == approach_text(f.ident, f.hex, cpa_pair(f.cpa)),
{
    let cpa = match f.cpa {
        Some(c) => Some((c.time_to_cpa_s, c.cpa_distance_nm)),
        None => None,
    };
    approach_line(&f.ident, &f.hex, cpa)
}

/// Why a flight is no longer heard, in words.
pub open spec fn reason_text(state: ContactState) -> Option<Seq<char>> {
    match state {
        ContactState::InContact => None,
        ContactState::Landed => Some("landed"@),
        ContactState::LeftScope => Some("left the Search area"@),
        ContactState::LostContact => Some("contact lost"@),
    }
}

/// The warning over the last known data of a flight that is no longer heard.
pub open spec fn banner_text(f: Flight) -> Option<Seq<char>> {
    match reason_text(f.state) {
        Some(reason) => Some(
            "⚠ "@ + reason + " — last-known data, "@ + decimal::fixed_text(f.age_s, 0) + "s ago"@,
        ),
        None => None,
    }
}

/// The warning over the last known data of a flight that is no longer heard; none while in
/// contact.
pub fn lost_banner(f: &Flight) -> (r: Option<String>)
    ensures
        text::opt(r) == banner_text(*f),
{
    let reason = match f.state {
        ContactState::InContact => return None,
        ContactState::Landed => "landed",
        ContactState::LeftScope => "left the Search area",
        ContactState::LostContact => "contact lost",
    };
    let mut s = "⚠ ".to_owned();
    s.append(reason);
    s.append(" — last-known data, ");
    s.append(decimal::fixed(&f.age_s, 0).as_str());
    s.append("s ago");
    Some(s)
}

/// A number with decimals and a unit, or a dash where there is none.
pub open spec fn or_dash(v: Option<Number>, decimals: nat, unit: Seq<char>) -> Seq<char> {
    match v {
        Some(x) => decimal::fixed_text(x, decimals) + unit,
        None => "—"@,
    }
}

/// A number with decimals and a unit, or a dash where there is none.
pub fn number_or_dash(v: &Option<Number>, decimals: u8, unit: &str) -> (r: String)
    requires
        decimals <= 9,
    ensures
        r@ == or_dash(*v, decimals as nat, unit@),
{
    match v {
        Some(x) => text::concat(decimal::fixed(x, decimals).as_str(), unit),
        None => "—".to_owned(),
    }
}

/// Lines of text, in order.
pub open spec fn one(line: Seq<char>) -> Seq<Seq<char>> {
    seq![line]
}

/// A line where there is one.
pub open spec fn maybe(line: Option<Seq<char>>) -> Seq<Seq<char>> {
    match line {
        Some(l) => seq![l],
        None => Seq::empty(),
    }
}

/// Adds a line.
pub fn push_line(lines: &mut Vec<String>, line: String)
    ensures
        text::all(final(lines)@) == text::all(old(lines)@) + one(line@),
{
    let ghost before = text::all(lines@);
    lines.push(line);
    assert(text::all(lines@) =~= before + one(line@));
}

/// Adds a line where there is one.
pub fn push_maybe(lines: &mut Vec<String>, line: Option<String>)
    ensures
        text::all(final(lines)@) == text::all(old(lines)@) + maybe(text::opt(line)),
{
    let ghost before = text::all(lines@);
    match line {
        Some(l) => {
            lines.push(l);
        },
        None => {},
    }
    assert(text::all(lines@) =~= before + maybe(text::opt(line)));
}

/// An exactly found address.
pub open spec fn is_hex(hex: String, other: Option<String>) -> bool {
    other is Some && other->0@ == hex@
}

/// Whether an address is the one that is named.
pub fn names(hex: &String, other: &Option<String>) -> (r: bool)
    ensures
        r == is_hex(*hex, *other),
{
    match other {
        Some(o) => *o == *hex,
        None => false,
    }
}

/// Whether the flight at `k` is the first with this address.
pub open spec fn found_at(tracks: Seq<Flight>, hex: Seq<char>, k: Option<usize>) -> bool {
    match k {
        Some(k) => {
            &&& k < tracks.len()
            &&& tracks[k as int].hex@ == hex
            &&& forall|j: int| 0 <= j < k ==> (#[trigger] tracks[j]).hex@ != hex
        },
        None => forall|j: int| 0 <= j < tracks.len() ==> (#[trigger] tracks[j]).hex@ != hex,
    }
}

/// Where the first flight with this address stands.
pub fn find_hex(tracks: &Vec<Flight>, hex: &str) -> (r: Option<usize>)
    ensures
        found_at(tracks@, hex@, r),
{
    let mut k: usize = 0;
    while k < tracks.len()
        invariant
            k <= tracks.len(),
            forall|j: int| 0 <= j < k ==> (#[trigger] tracks@[j]).hex@ != hex@,
        decreases tracks.len() - k,
    {
        if text::same(tracks[k].hex.as_str(), hex) {
            return Some(k);
        }
        k = k + 1;
    }
    None
}

/// The first flight with this address.
pub open spec fn first_with(tracks: Seq<Flight>, hex: Seq<char>) -> Option<Flight>
    decreases tracks.len(),
{
    if tracks.len() == 0 {
        None
    } else if tracks[0].hex@ == hex {
        Some(tracks[0])
    } else {
        first_with(tracks.drop_first(), hex)
    }
}

/// The first flight with the address that is named, where one is.
pub open spec fn named(tracks: Seq<Flight>, hex: Option<String>) -> Option<Flight> {
    match hex {
        Some(h) => first_with(tracks, h@),
        None => None,
    }
}

proof fn lemma_first_with(tracks: Seq<Flight>, hex: Seq<char>, k: Option<usize>)
    requires
        found_at(tracks, hex, k),
    ensures
        first_with(tracks, hex) == (match k {
            Some(k) => Some(tracks[k as int]),
            None => None,
        }),
    decreases tracks.len(),
{
    if tracks.len() > 0 {
        let rest = tracks.drop_first();
        if tracks[0].hex@ == hex {
            if k is Some && k->0 > 0 {
                assert(tracks[0].hex@ != hex);
            }
        } else {
            let less: Option<usize> = match k {
                Some(k) => Some((k - 1) as usize),
                None => None,
            };
            if k is Some {
                assert(k->0 != 0);
                assert(rest[k->0 - 1] == tracks[k->0 as int]);
            }
            assert forall|j: int| 0 <= j < rest.len() && (k is Some ==> j < k->0 - 1) implies (
            #[trigger] rest[j]).hex@ != hex by {
                assert(rest[j] == tracks[j + 1]);
            }
            lemma_first_with(rest, hex, less);
        }
    }
}

/// The first flight with the address that is named, where one is.
pub fn find_named<'a>(tracks: &'a [Flight], hex: &Option<String>) -> (r: Option<&'a Flight>)
    ensures
        r is Some <==> named(tracks@, *hex) is Some,
        r is Some ==> *r->0 == named(tracks@, *hex)->0,
{
    let wanted = match hex {
        Some(h) => h,
        None => return None,
    };
    let mut k: usize = 0;
    while k < tracks.len()
        invariant
            k <= tracks.len(),
            *hex == Some(*wanted),
            forall|j: int| 0 <= j < k ==> (#[trigger] tracks@[j]).hex@ != wanted@,
        decreases tracks.len() - k,
    {
        if tracks[k].hex == *wanted {
            proof {
                lemma_first_with(tracks@, wanted@, Some(k));
            }
            return Some(&tracks[k]);
        }
        k = k + 1;
    }
    proof {
        lemma_first_with(tracks@, wanted@, None);
    }
    None
}

/// The line about the selected flight: model, position and age.
pub open spec fn selected_text(t: Flight) -> Seq<char> {
    "sel "@ + label_text(t.ident, t.hex) + " · "@ + (match (t.model, t.aircraft_type) {
        (Some(m), _) => m@,
        (None, Some(k)) => k@,
        (None, None) => "unknown type"@,
    }) + "  "@ + decimal::fixed_text(t.lat, 3) + ", "@ + decimal::fixed_text(t.lon, 3) + "  ("@
        + decimal::fixed_text(t.age_s, 0) + "s old)"@
}

/// The line about the selected flight: model, position and age.
pub fn fmt_selected(t: &Flight) -> (r: String)
    ensures
        r@ == selected_text(*t),
{
    let mut s = "sel ".to_owned();
    s.append(label(t).as_str());
    s.append(" · ");
    match (&t.model, &t.aircraft_type) {
        (Some(m), _) => s.append(m.as_str()),
        (None, Some(k)) => s.append(k.as_str()),
        (None, None) => s.append("unknown type"),
    }
    s.append("  ");
    s.append(decimal::fixed(&t.lat, 3).as_str());
    s.append(", ");
    s.append(decimal::fixed(&t.lon, 3).as_str());
    s.append("  (");
    s.append(decimal::fixed(&t.age_s, 0).as_str());
    s.append("s old)");
    s
}

/// Below this groundspeed, in knots, a flight counts as standing still.
pub const MOVING_FLOOR_KT: i32 = 1;

/// Track and groundspeed of a flight that moves.
pub open spec fn moving(f: Flight) -> Option<(Number, Number)> {
    match (f.track_deg, f.groundspeed_kt) {
        (Some(track), Some(gs)) => if gs.at_least_int(MOVING_FLOOR_KT as int) {
            Some((track, gs))
        } else {
            None
        },
        _ => None,
    }
}

/// Track and groundspeed of a flight that moves, for its heading on the radar.
pub fn velocity(f: &Flight) -> (r: Option<(Number, Number)>)
    ensures
        r == moving(*f),
{
    match (f.track_deg, f.groundspeed_kt) {
        (Some(track), Some(gs)) => if gs.is_at_least_int(MOVING_FLOOR_KT) {
            Some((track, gs))
        } else {
            None
        },
        _ => None,
    }
}

/// Whether a flight has a part to play: nearest, pacing or selected.
pub open spec fn flagged(
    f: Flight,
    nearest: Option<String>,
    pacing: Option<String>,
    selected: Option<String>,
) -> bool {
    is_hex(f.hex, nearest) || is_hex(f.hex, pacing) || is_hex(f.hex, selected)
}

/// Whether a flight has a part to play, and so a label on the radar.
pub fn is_flagged(
    f: &Flight,
    nearest: &Option<String>,
    pacing: &Option<String>,
    selected: &Option<String>,
) -> (r: bool)
    ensures
        r == flagged(*f, *nearest, *pacing, *selected),
{
    names(&f.hex, nearest) || names(&f.hex, pacing) || names(&f.hex, selected)
}

} // verus!
