//! What holds of the words that the clients put an answer into.

use crate::api::{ContactState, Flight, VerticalTrend};
use crate::decimal;
use crate::display;
use crate::number::Number;
use crate::text;
use vstd::prelude::*;

verus! {

/// A flight goes by its callsign, or else by its address, which brackets tell from a callsign.
pub proof fn law_label_is_the_callsign_or_the_address(ident: Option<String>, hex: String)
    ensures
        ident is Some ==> display::label_text(ident, hex) == ident->0@,
        ident is None ==> display::label_text(ident, hex) == seq!['['] + hex@ + seq![']'],
{
    reveal_strlit("[");
    reveal_strlit("]");
    assert("["@ =~= seq!['[']);
    assert("]"@ =~= seq![']']);
}

/// The glyphs of the vertical trends: up for a climb, down for a descent, a dash for level
/// flight, and none where nothing is known.
pub proof fn law_glyphs_point_where_the_flight_goes(trend: VerticalTrend)
    ensures
        display::glyph_text(trend) == seq!['↑'] <==> trend == VerticalTrend::Climb,
        display::glyph_text(trend) == seq!['↓'] <==> trend == VerticalTrend::Descend,
        display::glyph_text(trend) == seq!['–'] <==> trend == VerticalTrend::Level,
        display::glyph_text(trend).len() == 0 <==> trend == VerticalTrend::Unknown,
{
    reveal_strlit("↑");
    reveal_strlit("↓");
    reveal_strlit("–");
    reveal_strlit("");
    assert("↑"@ =~= seq!['↑']);
    assert("↓"@ =~= seq!['↓']);
    assert("–"@ =~= seq!['–']);
    assert("↑"@[0] == '↑' && "↓"@[0] == '↓' && "–"@[0] == '–');
    assert(seq!['↑'][0] == '↑' && seq!['↓'][0] == '↓' && seq!['–'][0] == '–');
}

/// The line about where a flight is: its label, its type where known, distance before bearing,
/// and its altitude, or that it is unknown.
pub proof fn law_position_line(
    ident: Option<String>,
    hex: String,
    kind: Option<String>,
    distance_nm: Number,
    bearing_deg: Number,
    altitude_ft: Option<Number>,
)
    ensures
        ({
            let line = display::position_text(
                ident,
                hex,
                kind,
                distance_nm,
                bearing_deg,
                altitude_ft,
            );
            let front = display::label_text(ident, hex) + (if kind is Some {
                " "@ + kind->0@
            } else {
                ""@
            }) + " — "@ + decimal::fixed_text(distance_nm, 1) + " nm @ "@
                + decimal::degrees_text(bearing_deg) + "° ("@;
            &&& altitude_ft is Some ==> line == front + (decimal::fixed_text(altitude_ft->0, 0)
                + " ft"@) + ")"@
            &&& altitude_ft is None ==> line == front + "alt ?"@ + ")"@
        }),
{
}

/// The line about when a flight passes: how close before how soon; without a closest pass only
/// its label.
pub proof fn law_approach_line(ident: Option<String>, hex: String, time_s: Number, distance_nm: Number)
    ensures
        display::approach_text(ident, hex, Some((time_s, distance_nm))) == display::label_text(
            ident,
            hex,
        ) + " — CPA "@ + decimal::fixed_text(distance_nm, 1) + " nm in "@ + decimal::fixed_text(
            time_s,
            0,
        ) + "s"@,
        display::approach_text(ident, hex, None) == display::label_text(ident, hex),
{
}

/// The pair of a closest pass is its time and its distance, in this order.
pub proof fn law_pass_is_time_and_distance(f: Flight)
    ensures
        display::cpa_pair(f.cpa) is Some <==> f.cpa is Some,
        f.cpa is Some ==> (display::cpa_pair(f.cpa)->0).0 == f.cpa->0.time_to_cpa_s && (
        display::cpa_pair(f.cpa)->0).1 == f.cpa->0.cpa_distance_nm,
{
}

/// Only a flight that is no longer heard stands under a warning: it says why, and how old what
/// is known of it is.
pub proof fn law_warning_says_why_and_how_old(f: Flight)
    ensures
        display::banner_text(f) is None <==> f.state == ContactState::InContact,
        f.state == ContactState::Landed ==> display::banner_text(f) == Some(
            "⚠ "@ + "landed"@ + " — last-known data, "@ + decimal::fixed_text(f.age_s, 0)
                + "s ago"@,
        ),
        f.state == ContactState::LeftScope ==> display::banner_text(f) == Some(
            "⚠ "@ + "left the Search area"@ + " — last-known data, "@ + decimal::fixed_text(
                f.age_s,
                0,
            ) + "s ago"@,
        ),
        f.state == ContactState::LostContact ==> display::banner_text(f) == Some(
            "⚠ "@ + "contact lost"@ + " — last-known data, "@ + decimal::fixed_text(f.age_s, 0)
                + "s ago"@,
        ),
{
}

/// A value that is missing is shown as a dash, never as a number.
pub proof fn law_missing_value_is_a_dash(x: Number, decimals: nat, unit: Seq<char>)
    ensures
        display::or_dash(None, decimals, unit) == "—"@,
        display::or_dash(Some(x), decimals, unit) == decimal::fixed_text(x, decimals) + unit,
{
}

/// A flight that is found by its address has it, and none before it does; one that is not found
/// is not there.
pub proof fn law_found_flight_is_the_first_of_its_address(tracks: Seq<Flight>, hex: Seq<char>)
    ensures
        display::first_with(tracks, hex) is None <==> forall|j: int|
            0 <= j < tracks.len() ==> (#[trigger] tracks[j]).hex@ != hex,
        display::first_with(tracks, hex) is Some ==> exists|k: int|
            0 <= k < tracks.len() && (#[trigger] tracks[k]) == display::first_with(tracks, hex)->0
                && tracks[k].hex@ == hex && forall|j: int|
                0 <= j < k ==> (#[trigger] tracks[j]).hex@ != hex,
    decreases tracks.len(),
{
    if tracks.len() > 0 {
        let rest = tracks.drop_first();
        law_found_flight_is_the_first_of_its_address(rest, hex);
        if tracks[0].hex@ == hex {
            assert(tracks[0] == display::first_with(tracks, hex)->0);
        } else {
            assert(forall|j: int| 0 <= j < rest.len() ==> #[trigger] rest[j] == tracks[j + 1]);
            if display::first_with(rest, hex) is Some {
                let k = choose|k: int|
                    0 <= k < rest.len() && (#[trigger] rest[k]) == display::first_with(
                        rest,
                        hex,
                    )->0 && rest[k].hex@ == hex && forall|j: int|
                        0 <= j < k ==> (#[trigger] rest[j]).hex@ != hex;
                assert(tracks[k + 1] == display::first_with(tracks, hex)->0);
                assert forall|j: int| 0 <= j < k + 1 implies (#[trigger] tracks[j]).hex@
                    != hex by {
                    if j > 0 {
                        assert(tracks[j] == rest[j - 1]);
                    }
                }
            } else {
                assert forall|j: int| 0 <= j < tracks.len() implies (#[trigger] tracks[j]).hex@
                    != hex by {
                    if j > 0 {
                        assert(tracks[j] == rest[j - 1]);
                    }
                }
            }
        }
    }
}

/// A flight is named by its own address alone; where none is named, none is found.
pub proof fn law_naming_is_by_address(f: Flight, hex: Option<String>, tracks: Seq<Flight>)
    ensures
        display::is_hex(f.hex, hex) <==> hex is Some && hex->0@ == f.hex@,
        hex is None ==> display::named(tracks, hex) is None,
        display::named(tracks, hex) is Some ==> (display::named(tracks, hex)->0).hex@ == hex->0@,
{
    if hex is Some {
        law_found_flight_is_the_first_of_its_address(tracks, hex->0@);
    }
}

/// The line about the selected flight: its label, its model or else its type, latitude before
/// longitude, and its age.
pub proof fn law_selected_line(t: Flight)
    ensures
        ({
            let kind = if t.model is Some {
                t.model->0@
            } else if t.aircraft_type is Some {
                t.aircraft_type->0@
            } else {
                "unknown type"@
            };
            display::selected_text(t) == "sel "@ + display::label_text(t.ident, t.hex) + " · "@
                + kind + "  "@ + decimal::fixed_text(t.lat, 3) + ", "@ + decimal::fixed_text(
                t.lon,
                3,
            ) + "  ("@ + decimal::fixed_text(t.age_s, 0) + "s old)"@
        }),
{
}

/// A flight has a heading on the radar where its track and a groundspeed of at least one knot
/// are known, and then by just these two.
pub proof fn law_heading_is_track_and_groundspeed(f: Flight)
    ensures
        display::moving(f) is Some <==> f.track_deg is Some && f.groundspeed_kt is Some
            && f.groundspeed_kt->0.at_least_int(1),
        display::moving(f) is Some ==> Some((display::moving(f)->0).0) == f.track_deg && Some(
            (display::moving(f)->0).1,
        ) == f.groundspeed_kt,
{
}

/// A flight is flagged exactly where it is the nearest, the pacing or the selected one.
pub proof fn law_flagged_flights_have_a_part(
    f: Flight,
    nearest: Option<String>,
    pacing: Option<String>,
    selected: Option<String>,
)
    ensures
        display::flagged(f, nearest, pacing, selected) <==> (nearest is Some && nearest->0@
            == f.hex@) || (pacing is Some && pacing->0@ == f.hex@) || (selected is Some
            && selected->0@ == f.hex@),
{
}

/// A line that is there adds one line, and one that is not adds none.
pub proof fn law_lines_are_added_one_by_one(line: Seq<char>)
    ensures
        display::one(line) == seq![line],
        display::maybe(Some(line)) == seq![line],
        display::maybe(None).len() == 0,
{
}

/// Looking for an address finds the first flight that has it, or nothing where none does.
pub proof fn law_search_finds_the_first(tracks: Seq<Flight>, hex: Seq<char>, found: Option<usize>)
    requires
        display::found_at(tracks, hex, found),
    ensures
        found is Some <==> exists|j: int|
            0 <= j < tracks.len() && (#[trigger] tracks[j]).hex@ == hex,
        found is Some ==> found->0 < tracks.len() && tracks[found->0 as int].hex@ == hex,
        found is Some ==> forall|j: int|
            0 <= j < found->0 ==> (#[trigger] tracks[j]).hex@ != hex,
{
    if found is Some {
        assert(tracks[found->0 as int].hex@ == hex);
    }
}

} // verus!
