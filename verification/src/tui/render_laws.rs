//! What holds of every line that the radar shows.

use crate::api::{
    ContactState, Flight, FlightDetail, Health, PictureResponse, VerticalTrend,
};
use crate::decimal;
use crate::detail::{self, EntryKind};
use crate::display;
use crate::display_laws;
use crate::number;
use crate::text;
use crate::tui::app::{App, Conn, DetailView};
use crate::tui::fit;
use crate::tui::render;
use crate::tui::style::{Color, Style};
use vstd::prelude::*;

verus! {

proof fn lemma_arrows_spelled()
    ensures
        "▲"@ == seq!['▲'],
        "▼"@ == seq!['▼'],
        "·"@ == seq!['·'],
        "✕"@ == seq!['✕'],
        ""@.len() == 0,
        seq!['▲'][0] == '▲',
        seq!['▼'][0] == '▼',
        seq!['·'][0] == '·',
        seq!['✕'][0] == '✕',
{
    reveal_strlit("▲");
    reveal_strlit("▼");
    reveal_strlit("·");
    reveal_strlit("✕");
    reveal_strlit("");
    assert("▲"@ =~= seq!['▲']);
    assert("▼"@ =~= seq!['▼']);
    assert("·"@ =~= seq!['·']);
    assert("✕"@ =~= seq!['✕']);
}

/// The row of a flight in contact ends with the up arrow exactly where its closest pass is not
/// yet behind, with the down arrow exactly where it is, and with a dot where it has none; a row
/// ends with a cross exactly where the flight is no longer heard. No two of them look alike.
pub proof fn law_arrow_tells_whether_the_pass_is_behind(t: Flight)
    requires
        t.cpa is Some ==> t.cpa->0.time_to_cpa_s.finite(),
    ensures
        ({
            let heard = t.state == ContactState::InContact;
            let arrow = render::row_end(t).0;
            &&& arrow == seq!['▲'] <==> heard && t.cpa is Some
                && t.cpa->0.time_to_cpa_s.units() >= 0
            &&& arrow == seq!['▼'] <==> heard && t.cpa is Some
                && t.cpa->0.time_to_cpa_s.units() < 0
            &&& arrow == seq!['·'] <==> heard && t.cpa is None
            &&& arrow == seq!['✕'] <==> !heard
        }),
{
    lemma_arrows_spelled();
    assert(0 * number::one() == 0) by (nonlinear_arith);
}

/// The colours of the row's end go with its arrows: green ahead of the pass, blue behind it,
/// grey without one; a lost flight is muted.
pub proof fn law_arrow_colour_goes_with_the_arrow(t: Flight)
    requires
        t.cpa is Some ==> t.cpa->0.time_to_cpa_s.finite(),
    ensures
        render::row_end(t).1 == Color::Green <==> render::row_end(t).0 == seq!['▲'],
        render::row_end(t).1 == Color::Blue <==> render::row_end(t).0 == seq!['▼'],
        t.state != ContactState::InContact ==> render::row_end(t).1 == (if t.state
            == ContactState::LostContact {
            Color::Yellow
        } else {
            Color::DarkGray
        }),
        t.state == ContactState::InContact && t.cpa is None ==> render::row_end(t).1
            == Color::DarkGray,
{
    lemma_arrows_spelled();
}

/// Only ahead of its pass does a flight in contact say how close and how soon, in this order; a
/// lost one says why it is missing.
pub proof fn law_row_ends_in_words(t: Flight)
    requires
        t.cpa is Some ==> t.cpa->0.time_to_cpa_s.finite(),
    ensures
        t.state == ContactState::InContact && t.cpa is Some && t.cpa->0.time_to_cpa_s.units() >= 0
            ==> render::row_end(t).2 == decimal::fixed_text(t.cpa->0.cpa_distance_nm, 0)
            + "nm/"@ + decimal::fixed_text(t.cpa->0.time_to_cpa_s, 0) + "s"@,
        t.state == ContactState::InContact && (t.cpa is None || t.cpa->0.time_to_cpa_s.units() < 0)
            ==> render::row_end(t).2.len() == 0,
        t.state == ContactState::Landed ==> render::row_end(t).2 == "landed"@,
        t.state == ContactState::LeftScope ==> render::row_end(t).2 == "left scope"@,
        t.state == ContactState::LostContact ==> render::row_end(t).2 == "lost"@,
{
    lemma_arrows_spelled();
    assert(0 * number::one() == 0) by (nonlinear_arith);
}

/// A climb is green, a descent cyan, and the rest grey.
pub proof fn law_trend_colours(trend: VerticalTrend)
    ensures
        render::trend_color(trend) == Color::Green <==> trend == VerticalTrend::Climb,
        render::trend_color(trend) == Color::Cyan <==> trend == VerticalTrend::Descend,
        render::trend_color(trend) == Color::DarkGray <==> trend == VerticalTrend::Level || trend
            == VerticalTrend::Unknown,
{
}

/// The pacing flight alone stands out in a row; a flight that is lost or has no callsign is
/// faded, any other is plain.
pub proof fn law_callsign_styles(t: Flight, pacing: bool)
    ensures
        render::ident_style(t, pacing).bold <==> pacing,
        pacing ==> render::ident_style(t, pacing).color == Color::LightRed,
        !pacing ==> (render::ident_style(t, pacing).color == Color::DarkGray <==> t.state
            != ContactState::InContact || t.ident is None),
        !pacing ==> (render::ident_style(t, pacing).color == Color::Default <==> t.state
            == ContactState::InContact && t.ident is Some),
{
}

/// A row has six groups. In the order of importance: callsign, distance and bearing, altitude
/// with its trend, groundspeed, type, and approach; they are shown with the type behind the
/// callsign.
pub proof fn law_row_groups_by_importance(t: Flight, pacing: bool)
    ensures
        ({
            let g = render::row_groups(t, pacing);
            &&& g.len() == 6
            &&& g[0].0 < g[2].0 < g[3].0 < g[4].0 < g[1].0 < g[5].0
            &&& g[0].1 == seq![
                (
                    decimal::left_aligned(display::label_text(t.ident, t.hex), 8),
                    render::ident_style(t, pacing),
                ),
            ]
            &&& g[2].1[0].0 == " "@ + decimal::right_aligned(
                decimal::fixed_text(t.distance_nm, 1),
                5,
            ) + "nm "@ + decimal::degrees_text(t.bearing_deg) + "°"@
            &&& g[5].1[0].0 == " "@ + render::row_end(t).0 + " "@
            &&& g[5].1[0].1.color == render::row_end(t).1
            &&& g[5].1[1].0 == render::row_end(t).2
            &&& g[1].1.len() == 1 && g[2].1.len() == 1 && g[3].1.len() == 2 && g[4].1.len() == 1
                && g[5].1.len() == 2
        }),
{
}

/// What a row shows of what may be unknown: a type it does not know is blank, an altitude a
/// question mark, and a groundspeed nothing at all. The trend's glyph is part of the altitude.
pub proof fn law_row_shows_what_is_known(t: Flight, pacing: bool)
    ensures
        ({
            let g = render::row_groups(t, pacing);
            &&& t.aircraft_type is Some ==> g[1].1[0].0 == " "@ + decimal::left_aligned(
                t.aircraft_type->0@,
                4,
            )
            &&& t.aircraft_type is None ==> g[1].1[0].0 == " "@ + decimal::left_aligned(""@, 4)
            &&& t.altitude_ft is Some ==> g[3].1[0].0 == " "@ + decimal::right_aligned(
                decimal::fixed_text(t.altitude_ft->0, 0) + "ft"@,
                7,
            )
            &&& t.altitude_ft is None ==> g[3].1[0].0 == " "@ + decimal::right_aligned("?"@, 7)
            &&& g[3].1[1].0 == display::glyph_text(t.vertical_trend)
            &&& g[3].1[1].1.color == render::trend_color(t.vertical_trend)
            &&& t.groundspeed_kt is Some ==> g[4].1[0].0 == " "@ + decimal::right_aligned(
                decimal::fixed_text(t.groundspeed_kt->0, 0),
                3,
            ) + "kt"@
            &&& t.groundspeed_kt is None ==> g[4].1[0].0 == ""@
        }),
{
}

/// Live data is green and shows no failure; stale data is yellow and none at all red, and both
/// show the failure that goes with them.
pub proof fn law_freshness_by_health(last_error: Option<String>)
    ensures
        render::freshness(Health::Live, last_error) == ("LIVE"@, Color::Green, None::<Seq<char>>),
        render::freshness(Health::Stale, last_error) == (
            "STALE"@,
            Color::Yellow,
            text::opt(last_error),
        ),
        render::freshness(Health::NoData, last_error) == (
            "NO DATA"@,
            Color::Red,
            text::opt(last_error),
        ),
{
}

/// While the server answers, the state is that of its data; before its first answer there is
/// none.
pub proof fn law_state_is_that_of_the_data(app: App)
    requires
        app.conn is Up,
    ensures
        app.picture is None ==> render::state_of(app).0 == "NO DATA"@ && render::state_of(app).2
            is None,
        app.picture is Some && app.picture->0.health == Health::Live ==> render::state_of(app).0
            == "LIVE"@ && render::state_of(app).2 is None,
        app.picture is Some && app.picture->0.health == Health::Stale ==> render::state_of(app).0
            == "STALE"@ && render::state_of(app).2 == text::opt(app.picture->0.last_error),
        app.picture is Some && app.picture->0.health == Health::NoData ==> render::state_of(app).0
            == "NO DATA"@ && render::state_of(app).2 == text::opt(app.picture->0.last_error),
{
}

/// The status block has a line for the source, the nearest flight, the pacing one, the relevance
/// distance and the selection, and one more exactly where there is a failure to show.
pub proof fn law_status_has_its_lines(app: App)
    ensures
        ({
            let lines = render::status_view(app);
            let state = render::state_of(app);
            &&& lines.len() == (if state.2 is Some {
                6
            } else {
                5int
            })
            &&& lines[0][1].0 == app.meta.source@
            &&& lines[0][3].0 == "["@ + state.0 + "]"@
            &&& lines[0][3].1.color == state.1
            &&& lines[1][0].0 == "nearest  "@ + render::nearest_text(app.flights())
            &&& lines[2][0].0 == "pacing   "@ + render::pacing_text(
                app.flights(),
                render::pacing_of(app.picture),
            )
            &&& lines[3][0].0 == "relevance "@ + decimal::fixed_text(app.meta.relevance_nm, 0)
                + "nm"@
            &&& state.2 is Some ==> lines[5][0].0 == "! "@ + state.2->0 && lines[5][0].1.color
                == Color::Red
        }),
{
}

/// The first line counts the flights of the picture and says how old it is.
pub proof fn law_status_counts_the_flights(app: App)
    ensures
        app.picture is None ==> render::status_view(app)[0][4].0 == "  "@ + decimal::dec(
            app.flights().len(),
        ) + " flights · "@ + "—"@,
        app.picture is Some && app.picture->0.snapshot_age_s is None ==> render::status_view(
            app,
        )[0][4].0 == "  "@ + decimal::dec(app.picture->0.tracks@.len()) + " flights · "@ + "—"@,
        app.picture is Some && app.picture->0.snapshot_age_s is Some ==> render::status_view(
            app,
        )[0][4].0 == "  "@ + decimal::dec(app.picture->0.tracks@.len()) + " flights · "@ + (
        decimal::fixed_text(app.picture->0.snapshot_age_s->0, 0) + "s ago"@),
{
}

/// The nearest flight of the status is the first of the picture; where it is no longer heard
/// the line says why, and without any flight that there is none.
pub proof fn law_nearest_is_the_first_flight(flights: Seq<Flight>)
    ensures
        flights.len() == 0 ==> render::nearest_text(flights) == "(none)"@,
        flights.len() > 0 ==> ({
            let f = flights[0];
            let place = display::position_text(
                f.ident,
                f.hex,
                f.aircraft_type,
                f.distance_nm,
                f.bearing_deg,
                f.altitude_ft,
            );
            &&& f.state == ContactState::InContact ==> render::nearest_text(flights) == place
            &&& f.state == ContactState::Landed ==> render::nearest_text(flights) == place
                + "  [lost: "@ + "landed"@ + "]"@
            &&& f.state == ContactState::LeftScope ==> render::nearest_text(flights) == place
                + "  [lost: "@ + "left scope"@ + "]"@
            &&& f.state == ContactState::LostContact ==> render::nearest_text(flights) == place
                + "  [lost: "@ + "lost"@ + "]"@
        }),
{
}

/// The pacing flight of the status is the one that the server names; where it names none, or
/// none of the picture, the airspace is quiet.
pub proof fn law_pacing_is_the_named_flight(flights: Seq<Flight>, pacing: Option<String>, k: int)
    requires
        0 <= k < flights.len(),
    ensures
        pacing is None ==> render::pacing_text(flights, pacing) == "quiet — backing off"@,
        pacing is Some && (forall|j: int|
            0 <= j < flights.len() ==> (#[trigger] flights[j]).hex@ != pacing->0@)
            ==> render::pacing_text(flights, pacing) == "quiet — backing off"@,
        pacing is Some && flights[k].hex@ == pacing->0@ && (forall|j: int|
            0 <= j < k ==> (#[trigger] flights[j]).hex@ != pacing->0@) ==> render::pacing_text(
            flights,
            pacing,
        ) == display::approach_text(
            flights[k].ident,
            flights[k].hex,
            display::cpa_pair(flights[k].cpa),
        ),
{
    if pacing is Some {
        display_laws::law_found_flight_is_the_first_of_its_address(flights, pacing->0@);
        if display::first_with(flights, pacing->0@) is Some {
            let i = choose|i: int|
                0 <= i < flights.len() && (#[trigger] flights[i]) == display::first_with(
                    flights,
                    pacing->0@,
                )->0 && flights[i].hex@ == pacing->0@ && forall|j: int|
                    0 <= j < i ==> (#[trigger] flights[j]).hex@ != pacing->0@;
            if flights[k].hex@ == pacing->0@ && (forall|j: int|
                0 <= j < k ==> (#[trigger] flights[j]).hex@ != pacing->0@) {
                if i < k {
                    assert(flights[i].hex@ != pacing->0@);
                } else if k < i {
                    assert(flights[k].hex@ != pacing->0@);
                }
            }
        }
    }
}

/// The line about the selection is that of a flight of the picture with the selected address;
/// without one it names the keys.
pub proof fn law_selection_line(flights: Seq<Flight>, selected: Option<String>)
    ensures
        render::choice_view(flights, selected).len() == 1,
        display::named(flights, selected) is None ==> render::choice_view(flights, selected)[0].0
            == "↑/↓ select · Enter detail · Esc clear · q quit"@,
        display::named(flights, selected) is Some ==> render::choice_view(flights, selected)[0].0
            == display::selected_text(display::named(flights, selected)->0) && selected is Some
            && (display::named(flights, selected)->0).hex@ == selected->0@,
{
    if selected is Some {
        display_laws::law_found_flight_is_the_first_of_its_address(flights, selected->0@);
    }
}

/// The selected blip is white whatever else it is; a lost one is grey whatever part it plays;
/// then the pacing one is red, the nearest cyan, and one without a callsign grey; any other is
/// green ahead of its pass and blue behind it or without one.
pub proof fn law_blip_colours_by_rank(
    f: Flight,
    nearest: Option<String>,
    pacing: Option<String>,
    selected: Option<String>,
)
    requires
        f.cpa is Some ==> f.cpa->0.time_to_cpa_s.finite(),
    ensures
        ({
            let color = render::color_of(f, nearest, pacing, selected);
            let is_selected = selected is Some && selected->0@ == f.hex@;
            let is_pacing = pacing is Some && pacing->0@ == f.hex@;
            let is_nearest = nearest is Some && nearest->0@ == f.hex@;
            let heard = f.state == ContactState::InContact;
            let other = !is_selected && heard && !is_pacing && !is_nearest && f.ident is Some;
            &&& color == Color::White <==> is_selected
            &&& color == Color::LightRed <==> !is_selected && heard && is_pacing
            &&& color == Color::Cyan <==> !is_selected && heard && !is_pacing && is_nearest
            &&& color == Color::Green <==> other && f.cpa is Some
                && f.cpa->0.time_to_cpa_s.units() >= 0
            &&& color == Color::Blue <==> other && (f.cpa is None
                || f.cpa->0.time_to_cpa_s.units() < 0)
            &&& !is_selected && !heard ==> color == Color::DarkGray
        }),
{
    assert(0 * number::one() == 0) by (nonlinear_arith);
}

/// A cross behind its label marks a blip exactly where the flight is no longer heard.
pub proof fn law_blip_label_marks_the_lost(f: Flight)
    ensures
        f.state == ContactState::InContact ==> render::blip_label(f) == display::label_text(
            f.ident,
            f.hex,
        ),
        f.state != ContactState::InContact ==> render::blip_label(f) == display::label_text(
            f.ident,
            f.hex,
        ) + " ✕"@,
{
}

/// The warning over a detail is bold, yellow where contact is lost and grey where the reason is
/// known; a flight in contact has none.
pub proof fn law_detail_warning_is_bold(f: Flight)
    ensures
        render::banner_view(f) is None <==> f.state == ContactState::InContact,
        f.state != ContactState::InContact ==> render::banner_view(f)->0.len() == 1
            && render::banner_view(f)->0[0].1.bold && Some(render::banner_view(f)->0[0].0)
            == display::banner_text(f),
        f.state != ContactState::InContact ==> (render::banner_view(f)->0[0].1.color
            == Color::Yellow <==> f.state == ContactState::LostContact),
{
}

/// A header and a field take one line each, a section an empty line and its title; a field shows
/// its label in a column of its own and its value as it is.
pub proof fn law_entry_lines(label: Seq<char>, value: Seq<char>)
    ensures
        render::entry_lines((EntryKind::Header, label, value)) == seq![
            seq![(label, Style { color: Color::White, bold: true })],
        ],
        render::entry_lines((EntryKind::Section, label, value)).len() == 2,
        render::entry_lines((EntryKind::Section, label, value))[1] == seq![
            (label, Style { color: Color::Yellow, bold: true }),
        ],
        render::entry_lines((EntryKind::Field, label, value)).len() == 1,
        render::entry_lines((EntryKind::Field, label, value))[0][0].0 == "  "@
            + decimal::left_aligned(label, 16),
        render::entry_lines((EntryKind::Field, label, value))[0][1].0 == value,
{
}

/// Every entry of a flight's detail has its lines in the detail view, in the order of the
/// entries.
pub proof fn law_every_entry_is_drawn(entries: Seq<detail::EntryView>, n: nat, k: int) -> (at: int)
    requires
        0 <= k < n <= entries.len(),
    ensures
        0 <= at,
        at + render::entry_lines(entries[k]).len() <= render::entries_lines(entries, n).len(),
        render::entries_lines(entries, n).subrange(
            at,
            at + render::entry_lines(entries[k]).len(),
        ) == render::entry_lines(entries[k]),
    decreases n,
{
    let before = render::entries_lines(entries, (n - 1) as nat);
    let all = render::entries_lines(entries, n);
    let mine = render::entry_lines(entries[k]);
    if k == n - 1 {
        assert(all.subrange(before.len() as int, (before.len() + mine.len()) as int) =~= mine);
        before.len() as int
    } else {
        let at = law_every_entry_is_drawn(entries, (n - 1) as nat, k);
        assert(all.subrange(at, at + mine.len()) =~= before.subrange(at, at + mine.len()));
        at
    }
}

/// A detail that is loaded is shown, under its warning where it has one; else a notice says that
/// it is loading, that the flight has left, or what went wrong, and each names the keys that
/// work then.
pub proof fn law_popup_shows_the_detail_or_why_not(
    d: Box<FlightDetail>,
    e: String,
    warning: render::LineView,
)
    ensures
        render::popup_view(Some(DetailView::Loaded(d)), None) == render::detail_view(*d),
        render::popup_view(Some(DetailView::Loaded(d)), Some(warning))[0] == warning,
        render::popup_view(Some(DetailView::Loaded(d)), Some(warning)).skip(2)
            == render::detail_view(*d),
        render::popup_view(Some(DetailView::LeftArea), Some(warning))[1][0].0 == "  "@
            + "— flight left the area —"@,
        render::popup_view(Some(DetailView::Error(e)), Some(warning))[1][0].0 == "  "@ + ("— "@
            + e@ + " —"@),
        render::popup_view(None, Some(warning))[1][0].0 == "  "@ + "— loading… —"@,
        render::popup_footer(Some(DetailView::Loaded(d)))
            == "Esc close · ↑/↓ flight · PgUp/PgDn scroll"@,
        render::popup_footer(Some(DetailView::LeftArea)) == "Esc close · ↑/↓ next flight"@,
        render::popup_footer(Some(DetailView::Error(e))) == "Esc close"@,
        render::popup_footer(None) == "Esc close"@,
{
    assert(render::popup_view(Some(DetailView::Loaded(d)), Some(warning)).skip(2)
        =~= render::detail_view(*d));
}

/// A terminal shows a trend only with its rate: its detail view is made of every entry but a
/// bare trend.
pub proof fn law_terminal_shows_no_bare_trend(d: FlightDetail)
    ensures
        render::detail_view(d) == render::entries_lines(
            detail::everything(d, false),
            detail::everything(d, false).len(),
        ),
{
}

/// A connection that is down is shown with its reason even where the last picture was live.
pub proof fn law_down_is_down(app: App, why: String)
    requires
        app.conn == Conn::Down(why),
    ensures
        render::state_of(app).0 == "UNREACHABLE"@,
        render::state_of(app).1 == Color::Red,
        render::state_of(app).2 == Some(why@),
{
}

/// The row of a flight, where there is room for all of it, begins with its callsign and ends
/// with its arrow and what goes with it.
pub proof fn law_wide_row_begins_and_ends(
    t: Flight,
    pacing: bool,
    line: render::LineView,
    max: u16,
)
    requires
        fit::is_row_of(line, render::row_groups(t, pacing), max),
        fit::columns_of_first(
            fit::group_widths(render::row_groups(t, pacing)),
            fit::importance(fit::group_priorities(render::row_groups(t, pacing))),
            6,
        ) <= max,
    ensures
        line.len() == 8,
        line[0].0 == decimal::left_aligned(display::label_text(t.ident, t.hex), 8),
        line[6].0 == " "@ + render::row_end(t).0 + " "@,
        line[6].1.color == render::row_end(t).1,
        line[7].0 == render::row_end(t).2,
{
    let g = render::row_groups(t, pacing);
    fit::law_wide_row_shows_everything(line, g, max);
    let t1 = fit::all_texts(g, 1);
    let t2 = fit::all_texts(g, 2);
    let t3 = fit::all_texts(g, 3);
    let t4 = fit::all_texts(g, 4);
    let t5 = fit::all_texts(g, 5);
    let t6 = fit::all_texts(g, 6);
    assert(fit::all_texts(g, 0).len() == 0);
    assert(t1.len() == 1 && t2.len() == 2 && t3.len() == 3 && t4.len() == 5 && t5.len() == 6);
    assert(t6.len() == 8);
    assert(t1[0] == g[0].1[0]);
    assert(t2[0] == t1[0] && t3[0] == t2[0] && t4[0] == t3[0] && t5[0] == t4[0] && t6[0] == t5[0]);
    assert(t6[6] == g[5].1[0]);
    assert(t6[7] == g[5].1[1]);
}

/// The flight that paces and the age of the data are those of the picture; without a picture
/// nothing paces.
pub proof fn law_pacing_and_age_are_those_of_the_picture(picture: PictureResponse)
    ensures
        render::pacing_of(Some(picture)) == picture.pacing_hex,
        render::pacing_of(None) is None,
        picture.snapshot_age_s is Some ==> render::age_of(Some(picture)) == decimal::fixed_text(
            picture.snapshot_age_s->0,
            0,
        ) + "s ago"@,
        picture.snapshot_age_s is None ==> render::age_of(Some(picture)) == render::age_of(None),
{
}

} // verus!
