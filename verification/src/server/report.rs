//! What the command line says of the airspace and of each poll.

use crate::decimal;
use crate::display;
use crate::number::Number;
use crate::server::domain::{Cpa, Flight};
use crate::server::tracker::Track;
use crate::text;
use vstd::prelude::*;

verus! {

/// A flight's callsign, or its address in brackets.
pub fn label(f: &Flight) -> (r: String)
    ensures
        r@ == display::label_text(f.ident, f.hex),
{
    display::label_of(&f.ident, &f.hex)
}

/// Where a track is, in one line.
pub open spec fn place(t: Track) -> Seq<char> {
    display::position_text(
        t.flight.ident,
        t.flight.hex,
        t.flight.aircraft_type,
        t.distance_nm,
        t.bearing_from_home,
        t.flight.altitude_ft,
    )
}

/// Where a track is, in one line.
pub fn fmt_position(t: &Track) -> (r: String)
    ensures
        r@ == place(*t),
{
    display::position_line(
        &t.flight.ident,
        &t.flight.hex,
        &t.flight.aircraft_type,
        &t.distance_nm,
        &t.bearing_from_home,
        &t.flight.altitude_ft,
    )
}

/// The time and the distance of a CPA.
pub open spec fn cpa_pair(cpa: Option<Cpa>) -> Option<(Number, Number)> {
    match cpa {
        Some(c) => Some((c.time_to_cpa_s, c.cpa_distance_nm)),
        None => None,
    }
}

/// When and how closely a track passes, in one line.
pub open spec fn approach(t: Track) -> Seq<char> {
    display::approach_text(t.flight.ident, t.flight.hex, cpa_pair(t.cpa))
}

/// When and how closely a track passes, in one line.
pub fn fmt_pacing(t: &Track) -> (r: String)
    ensures
        r@ == approach(*t),
{
    let cpa = match t.cpa {
        Some(c) => Some((c.time_to_cpa_s, c.cpa_distance_nm)),
        None => None,
    };
    display::approach_line(&t.flight.ident, &t.flight.hex, cpa)
}

/// The nearest flight in words.
pub open spec fn nearest_words(nearest: Option<Track>) -> Seq<char> {
    match nearest {
        Some(t) => place(t),
        None => "(none)"@,
    }
}

fn say_nearest(nearest: &Option<Track>) -> (r: String)
    ensures
        r@ == nearest_words(*nearest),
{
    match nearest {
        Some(t) => fmt_position(t),
        None => "(none)".to_owned(),
    }
}

/// The pacing flight in words, or those for a quiet airspace.
pub open spec fn pacing_words(pacing: Option<Track>, quiet: Seq<char>) -> Seq<char> {
    match pacing {
        Some(t) => approach(t),
        None => quiet,
    }
}

fn say_pacing(pacing: &Option<Track>, quiet: &str) -> (r: String)
    ensures
        r@ == pacing_words(*pacing, quiet@),
{
    match pacing {
        Some(t) => fmt_pacing(t),
        None => quiet.to_owned(),
    }
}

/// What a single poll found: how many flights, which is nearest, which paces.
pub fn once_lines(
    count: usize,
    radius_nm: &Number,
    nearest: &Option<Track>,
    pacing: &Option<Track>,
) -> (r: Vec<String>)
    ensures
        text::all(r@) == seq![
            decimal::dec(count as nat) + " airborne flights within "@ + decimal::fixed_text(
                *radius_nm,
                0,
            ) + " nm of Home."@,
            "Nearest: "@ + nearest_words(*nearest),
            "Pacing : "@ + pacing_words(*pacing, "(none — airspace quiet)"@),
        ],
{
    let mut found = decimal::decimal(count as u128);
    found.append(" airborne flights within ");
    found.append(decimal::fixed(radius_nm, 0).as_str());
    found.append(" nm of Home.");
    let mut lines: Vec<String> = Vec::new();
    lines.push(found);
    lines.push(text::concat("Nearest: ", say_nearest(nearest).as_str()));
    lines.push(
        text::concat("Pacing : ", say_pacing(pacing, "(none — airspace quiet)").as_str()),
    );
    assert(text::all(lines@) =~= seq![
        decimal::dec(count as nat) + " airborne flights within "@ + decimal::fixed_text(
            *radius_nm,
            0,
        ) + " nm of Home."@,
        "Nearest: "@ + nearest_words(*nearest),
        "Pacing : "@ + pacing_words(*pacing, "(none — airspace quiet)"@),
    ]);
    lines
}

/// What is said once at the start: the source, the window of poll intervals in seconds, and
/// what follows.
pub fn banner(source: &str, min_s: &Number, max_s: &Number, end: &str) -> (r: String)
    ensures
        r@ == "source: "@ + source@ + " | poll window "@ + decimal::fixed_text(*min_s, 2) + "s–"@
            + decimal::fixed_text(*max_s, 0) + "s | "@ + end@,
{
    let mut s = text::concat("source: ", source);
    s.append(" | poll window ");
    s.append(decimal::fixed(min_s, 2).as_str());
    s.append("s–");
    s.append(decimal::fixed(max_s, 0).as_str());
    s.append("s | ");
    s.append(end);
    s
}

/// The seconds since the start, in brackets.
pub open spec fn stamp(elapsed_s: Number) -> Seq<char> {
    "["@ + decimal::right_aligned(decimal::fixed_text(elapsed_s, 1), 7) + "s] "@
}

fn show_stamp(elapsed_s: &Number) -> (r: String)
    ensures
        r@ == stamp(*elapsed_s),
{
    let t = decimal::fixed(elapsed_s, 1);
    text::concat3("[", decimal::align_right(t.as_str(), 7).as_str(), "s] ")
}

/// What a poll found, and in how many seconds the next one is due.
pub fn poll_line(
    elapsed_s: &Number,
    count: usize,
    nearest: &Option<Track>,
    pacing: &Option<Track>,
    next_s: &Number,
) -> (r: String)
    ensures
        r@ == stamp(*elapsed_s) + decimal::right_aligned(decimal::dec(count as nat), 3)
            + " flights | nearest "@ + nearest_words(*nearest) + " | pacing "@ + pacing_words(
            *pacing,
            "(quiet)"@,
        ) + " | next +"@ + decimal::fixed_text(*next_s, 1) + "s"@,
{
    let mut s = show_stamp(elapsed_s);
    s.append(decimal::align_right(decimal::decimal(count as u128).as_str(), 3).as_str());
    s.append(" flights | nearest ");
    s.append(say_nearest(nearest).as_str());
    s.append(" | pacing ");
    s.append(say_pacing(pacing, "(quiet)").as_str());
    s.append(" | next +");
    s.append(decimal::fixed(next_s, 1).as_str());
    s.append("s");
    s
}

/// Why a poll failed, and in how many seconds it is tried again.
pub fn failure_line(elapsed_s: &Number, error: &str, retry_s: &Number) -> (r: String)
    ensures
        r@ == stamp(*elapsed_s) + "poll error: "@ + error@ + " | retry +"@ + decimal::fixed_text(
            *retry_s,
            1,
        ) + "s"@,
{
    let mut s = show_stamp(elapsed_s);
    s.append("poll error: ");
    s.append(error);
    s.append(" | retry +");
    s.append(decimal::fixed(retry_s, 1).as_str());
    s.append("s");
    s
}

/// The command line says of a track where it is and when it passes, by its own values: the
/// distance and the bearing from Home, the reported altitude, and the time and the distance of
/// its closest pass.
pub proof fn law_track_is_told_by_its_own_values(t: Track)
    ensures
        place(t) == display::position_text(
            t.flight.ident,
            t.flight.hex,
            t.flight.aircraft_type,
            t.distance_nm,
            t.bearing_from_home,
            t.flight.altitude_ft,
        ),
        t.cpa is Some ==> approach(t) == display::approach_text(
            t.flight.ident,
            t.flight.hex,
            Some((t.cpa->0.time_to_cpa_s, t.cpa->0.cpa_distance_nm)),
        ),
        t.cpa is None ==> approach(t) == display::label_text(t.flight.ident, t.flight.hex),
{
}

/// Where there is no nearest flight the command line says so, and where none paces it says what
/// it was given for that.
pub proof fn law_absence_is_told(t: Track, quiet: Seq<char>)
    ensures
        nearest_words(None) == "(none)"@,
        nearest_words(Some(t)) == place(t),
        pacing_words(None, quiet) == quiet,
        pacing_words(Some(t), quiet) == approach(t),
{
}

/// The stamp of a line is the seconds since the start with one decimal, in brackets and aligned
/// to the right.
pub proof fn law_stamp_is_in_brackets(elapsed_s: Number)
    ensures
        stamp(elapsed_s).len() > 2,
        stamp(elapsed_s)[0] == '[',
        stamp(elapsed_s) == seq!['['] + decimal::right_aligned(
            decimal::fixed_text(elapsed_s, 1),
            7,
        ) + seq!['s', ']', ' '],
{
    reveal_strlit("[");
    reveal_strlit("s] ");
    assert("["@ =~= seq!['[']);
    assert("s] "@ =~= seq!['s', ']', ' ']);
}

} // verus!
