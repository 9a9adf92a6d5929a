//! What holds of everything that the page shows.

use crate::api::{Flight, Health, Meta, PictureResponse, VerticalTrend};
use crate::decimal;
use crate::detail;
use crate::display;
use crate::number;
use crate::span;
use crate::text;
use crate::web::app::{Conn, DetailView, Mode};
use crate::web::config;
use crate::web::detail::{self as overlays, Overlay};
use crate::web::display as colors;
use crate::web::panel::{self, FlightRow, StatusBlock};
use vstd::prelude::*;

verus! {

/// The arrow of a row: up ahead of the closest pass, down behind it, a dot without one; only the
/// first says how close and how soon, in this order.
pub proof fn law_arrow_tells_whether_the_pass_is_behind(t: Flight)
    requires
        t.cpa is Some ==> t.cpa->0.time_to_cpa_s.finite(),
    ensures
        ({
            let arrow = panel::arrow_of(t);
            let ahead = t.cpa is Some && t.cpa->0.time_to_cpa_s.units() >= 0;
            let behind = t.cpa is Some && t.cpa->0.time_to_cpa_s.units() < 0;
            &&& arrow.0 == seq!['▲'] <==> ahead
            &&& arrow.0 == seq!['▼'] <==> behind
            &&& arrow.0 == seq!['·'] <==> t.cpa is None
            &&& ahead ==> arrow.2 == decimal::fixed_text(t.cpa->0.cpa_distance_nm, 0) + "nm/"@
                + decimal::fixed_text(t.cpa->0.time_to_cpa_s, 0) + "s"@
            &&& !ahead ==> arrow.2.len() == 0
            &&& ahead ==> arrow.1 == "#a6e22e"@
            &&& behind ==> arrow.1 == "#5c9eff"@
            &&& t.cpa is None ==> arrow.1 == "#5a6270"@
        }),
{
    reveal_strlit("▲");
    reveal_strlit("▼");
    reveal_strlit("·");
    reveal_strlit("");
    assert("▲"@ =~= seq!['▲']);
    assert("▼"@ =~= seq!['▼']);
    assert("·"@ =~= seq!['·']);
    assert(seq!['▲'][0] == '▲' && seq!['▼'][0] == '▼' && seq!['·'][0] == '·');
    assert(0 * number::one() == 0) by (nonlinear_arith);
}

/// A row of the list shows the fields of its flight, each in its own column.
pub proof fn law_row_shows_its_flight(r: FlightRow, t: Flight, selected: bool, pacing: bool)
    requires
        panel::is_row_of(r, t, selected, pacing),
    ensures
        r.hex == t.hex,
        r.name@ == display::label_text(t.ident, t.hex),
        t.aircraft_type is Some ==> r.kind@ == t.aircraft_type->0@,
        t.aircraft_type is None ==> r.kind@.len() == 0,
        r.pos@ == decimal::fixed_text(t.distance_nm, 1) + "nm "@ + decimal::degrees_text(
            t.bearing_deg,
        ) + "°"@,
        t.altitude_ft is Some ==> r.alt@ == decimal::fixed_text(t.altitude_ft->0, 0) + "ft"@,
        t.altitude_ft is None ==> r.alt@ == "?"@,
        t.groundspeed_kt is Some ==> r.gs@ == decimal::fixed_text(t.groundspeed_kt->0, 0) + "kt"@,
        t.groundspeed_kt is None ==> r.gs@.len() == 0,
        r.glyph@ == display::glyph_text(t.vertical_trend),
        r.glyph_color@ == colors::trend_color(t.vertical_trend),
        r.arrow@ == panel::arrow_of(t).0,
        r.arrow_color@ == panel::arrow_of(t).1,
        r.cpa@ == panel::arrow_of(t).2,
{
    reveal_strlit("");
}

/// A row is marked as selected exactly where its flight is; its callsign as pacing where it
/// paces, and else as missing where it has none.
pub proof fn law_row_is_marked(r: FlightRow, t: Flight, selected: bool, pacing: bool)
    requires
        panel::is_row_of(r, t, selected, pacing),
    ensures
        selected ==> r.row_class@ == "flight-row selected"@,
        !selected ==> r.row_class@ == "flight-row"@,
        pacing ==> r.ident_class@ == "cell ident pacing"@,
        !pacing && t.ident is None ==> r.ident_class@ == "cell ident anon"@,
        !pacing && t.ident is Some ==> r.ident_class@ == "cell ident"@,
{
}

/// The state of the page: the connection goes first, and while it is up the state is that of the
/// data, with its failure where it is not live.
pub proof fn law_state_of_the_page(conn: Conn, picture: Option<PictureResponse>)
    ensures
        ({
            let state = panel::state_of(conn, picture);
            &&& conn is Down ==> state == ("UNREACHABLE"@, "#ff6b6b"@, Some("! "@ + conn->Down_0@))
            &&& conn is Connecting ==> state == ("CONNECTING"@, "#ffd866"@, None::<Seq<char>>)
            &&& conn is Up && picture is None ==> state == (
                "NO DATA"@,
                "#ff6b6b"@,
                None::<Seq<char>>,
            )
            &&& conn is Up && picture is Some && picture->0.health == Health::Live ==> state == (
                "LIVE"@,
                "#a6e22e"@,
                None::<Seq<char>>,
            )
            &&& conn is Up && picture is Some && picture->0.health == Health::Stale ==> state.0
                == "STALE"@ && state.1 == "#ffd866"@
            &&& conn is Up && picture is Some && picture->0.health == Health::NoData ==> state.0
                == "NO DATA"@ && state.1 == "#ff6b6b"@
            &&& conn is Up && picture is Some && picture->0.health != Health::Live ==> (
            picture->0.last_error is None ==> state.2 is None) && (picture->0.last_error is Some
                ==> state.2 == Some("! "@ + picture->0.last_error->0@))
        }),
{
}

/// The status block says what is known: the source, the state, how many flights, which is
/// nearest and which paces, and the selected flight of the picture.
pub proof fn law_status_says_what_is_known(
    s: StatusBlock,
    meta: Option<Meta>,
    picture: Option<PictureResponse>,
    conn: Conn,
    selected: Option<String>,
)
    requires
        panel::is_status_of(s, meta, picture, conn, selected),
    ensures
        meta is Some ==> s.source@ == meta->0.source@ && s.relevance@ == "relevance "@ + (
        decimal::fixed_text(meta->0.relevance_nm, 0) + "nm"@),
        meta is None ==> s.source@ == "—"@ && s.relevance@ == "relevance "@ + "—"@,
        s.state@ == "["@ + panel::state_of(conn, picture).0 + "]"@,
        s.state_color@ == panel::state_of(conn, picture).1,
        text::opt(s.error) == panel::state_of(conn, picture).2,
        picture is None || picture->0.tracks@.len() == 0 ==> s.nearest@ == "nearest  "@
            + "(none)"@,
        picture is Some && picture->0.tracks@.len() > 0 ==> s.nearest@ == "nearest  "@
            + display::position_text(
            picture->0.tracks@[0].ident,
            picture->0.tracks@[0].hex,
            picture->0.tracks@[0].aircraft_type,
            picture->0.tracks@[0].distance_nm,
            picture->0.tracks@[0].bearing_deg,
            picture->0.tracks@[0].altitude_ft,
        ),
        picture is None || picture->0.pacing_hex is None ==> s.pacing@ == "pacing   "@
            + "quiet — backing off"@,
        picture is None || selected is None ==> s.selected is None,
        s.hint@ == "click a flight · ↑/↓ select · Enter detail · Esc clear"@,
{
}

/// The pacing and the selected flight of the status are those of the picture that are named.
pub proof fn law_status_names_flights_of_the_picture(
    s: StatusBlock,
    meta: Option<Meta>,
    picture: PictureResponse,
    conn: Conn,
    selected: Option<String>,
)
    requires
        panel::is_status_of(s, meta, Some(picture), conn, selected),
    ensures
        ({
            let paces = display::named(picture.tracks@, picture.pacing_hex);
            let chosen = display::named(picture.tracks@, selected);
            &&& paces is Some ==> s.pacing@ == "pacing   "@ + display::approach_text(
                (paces->0).ident,
                (paces->0).hex,
                display::cpa_pair((paces->0).cpa),
            )
            &&& paces is None ==> s.pacing@ == "pacing   "@ + "quiet — backing off"@
            &&& chosen is Some ==> text::opt(s.selected) == Some(display::selected_text(chosen->0))
            &&& chosen is None ==> s.selected is None
            &&& picture.snapshot_age_s is None ==> s.counts@ == "  "@ + decimal::dec(
                picture.tracks@.len(),
            ) + " flights · "@ + "—"@
            &&& picture.snapshot_age_s is Some ==> s.counts@ == "  "@ + decimal::dec(
                picture.tracks@.len(),
            ) + " flights · "@ + (decimal::fixed_text(picture.snapshot_age_s->0, 0) + "s ago"@)
        }),
{
}

/// The colour of a blip goes by rank: selected, pacing, nearest, without a callsign, and else
/// whether the closest pass is ahead.
pub proof fn law_blip_colours_by_rank(
    f: Flight,
    nearest: Option<String>,
    pacing: Option<String>,
    selected: Option<String>,
)
    requires
        f.cpa is Some ==> f.cpa->0.time_to_cpa_s.finite(),
    ensures
        ({
            let color = colors::color_of(f, nearest, pacing, selected);
            let is_selected = selected is Some && selected->0@ == f.hex@;
            let is_pacing = pacing is Some && pacing->0@ == f.hex@;
            let is_nearest = nearest is Some && nearest->0@ == f.hex@;
            let other = !is_selected && !is_pacing && !is_nearest;
            &&& is_selected ==> color == "#f5f6f7"@
            &&& !is_selected && is_pacing ==> color == "#ff6b6b"@
            &&& !is_selected && !is_pacing && is_nearest ==> color == "#5fd7ff"@
            &&& other && f.ident is None ==> color == "#5a6270"@
            &&& other && f.ident is Some && f.cpa is Some && f.cpa->0.time_to_cpa_s.units() >= 0
                ==> color == "#a6e22e"@
            &&& other && f.ident is Some && (f.cpa is None || f.cpa->0.time_to_cpa_s.units() < 0)
                ==> color == "#5c9eff"@
        }),
{
    assert(0 * number::one() == 0) by (nonlinear_arith);
}

/// A climb, a descent and the rest have three colours.
pub proof fn law_trend_colours(trend: VerticalTrend)
    ensures
        trend == VerticalTrend::Climb ==> colors::trend_color(trend) == "#a6e22e"@,
        trend == VerticalTrend::Descend ==> colors::trend_color(trend) == "#5fd7ff"@,
        trend == VerticalTrend::Level || trend == VerticalTrend::Unknown ==> colors::trend_color(
            trend,
        ) == "#5a6270"@,
{
}

/// The flights and the pacing address are those of the picture; without one there are none.
pub proof fn law_page_shows_its_picture(picture: PictureResponse)
    ensures
        panel::flights_of(Some(picture)) == picture.tracks@,
        panel::pacing_of(Some(picture)) == picture.pacing_hex,
        panel::flights_of(None).len() == 0,
        panel::pacing_of(None) is None,
{
}

/// The overlay is there exactly while the detail is foremost: it shows every entry of what is
/// loaded, a bare trend among them, or else why there is nothing.
pub proof fn law_overlay_shows_the_detail_or_why_not(
    r: Option<Overlay>,
    mode: Mode,
    view: Option<DetailView>,
)
    requires
        overlays::is_overlay(r, mode, view),
    ensures
        r is Some <==> mode == Mode::Detail,
        r is Some && view is Some && view->0 is Loaded ==> r->0 is Entries
            && detail::entries_view(r->0->Entries_0@) == detail::everything(
            *view->0->Loaded_0,
            true,
        ),
        r is Some && (view is None || view->0 is Loading) ==> r->0 is Notice && r->0->Notice_0@
            == "— loading… —"@,
        r is Some && view is Some && view->0 is LeftArea ==> r->0 is Notice && r->0->Notice_0@
            == "— flight left the area —"@,
        r is Some && view is Some && view->0 is Error ==> r->0 is Notice && r->0->Notice_0@
            == "— "@ + view->0->Error_0@ + " —"@,
{
}

/// A pair of a query sets the server, without slashes behind it, or the frame rate, within its
/// bounds; of several the last counts, and any other pair changes nothing.
pub proof fn law_pairs_of_a_query(
    known: (Seq<char>, u32),
    key: Seq<char>,
    value: Seq<char>,
)
    requires
        !key.contains('='),
    ensures
        ({
            let after = config::with_pair(known, key + seq!['='] + value);
            &&& key == "server"@ && value.len() > 0 ==> after == (
                text::without_trailing(value, '/'),
                known.1,
            )
            &&& key == "server"@ && value.len() == 0 ==> after == known
            &&& key == "fps"@ && text::number_of(value) is Some ==> after.0 == known.0 && 1
                <= after.1 <= 60 && (1 <= text::number_of(value)->0 <= 60 ==> after.1
                == text::number_of(value)->0)
            &&& key == "fps"@ && text::number_of(value) is None ==> after == known
            &&& key != "server"@ && key != "fps"@ ==> after == known
        }),
{
    let pair = key + seq!['='] + value;
    text::law_halves_make_the_text(pair, '=');
    assert(pair[key.len() as int] == '=');
    assert(pair.contains('='));
    let h = text::halves(pair, '=')->0;
    let k = h.0.len();
    assert(pair == h.0 + seq!['='] + h.1);
    if k < key.len() {
        assert((h.0 + seq!['='] + h.1)[k as int] == '=');
        assert(key[k as int] == pair[k as int]);
        assert(key.contains('='));
    } else if k > key.len() {
        assert(h.0[key.len() as int] == pair[key.len() as int]);
        assert(h.0.contains('='));
    }
    assert(h.0 =~= key) by {
        assert forall|i: int| 0 <= i < key.len() implies h.0[i] == key[i] by {
            assert(h.0[i] == pair[i] && key[i] == pair[i]);
        }
    }
    assert(h.1 =~= value) by {
        assert forall|i: int| 0 <= i < value.len() implies h.1[i] == value[i] by {
            assert((h.0 + seq!['='] + h.1)[k + 1 + i] == h.1[i]);
            assert(pair[k + 1 + i] == value[i]);
        }
    }
    reveal_strlit("server");
    reveal_strlit("fps");
    assert("server"@.len() == 6 && "fps"@.len() == 3);
    if text::number_of(value) is Some {
        span::law_clamping_moves_to_the_nearest_bound(text::number_of(value)->0 as int, 1, 60);
    }
}

/// Without pairs a page asks the local server, four times a second; each pair is taken in turn.
pub proof fn law_pairs_are_taken_in_turn(pairs: Seq<Seq<char>>, n: nat)
    requires
        n > 0,
    ensures
        config::with_pairs(pairs, 0) == ("http://127.0.0.1:7878"@, 4u32),
        config::with_pairs(pairs, n) == config::with_pair(
            config::with_pairs(pairs, (n - 1) as nat),
            pairs[n - 1],
        ),
{
}

/// A question mark in front of a query does not count.
pub proof fn law_question_mark_does_not_count(search: Seq<char>)
    ensures
        config::asked(seq!['?'] + search) == config::asked(search),
{
    let s = seq!['?'] + search;
    assert(s.drop_first() =~= search);
    assert(text::without_leading(s, '?') == text::without_leading(search, '?'));
}

/// The pairs of a query stand between ampersands and are taken from the left.
pub proof fn law_pairs_stand_between_ampersands(a: Seq<char>, b: Seq<char>)
    requires
        !a.contains('&'),
        !b.contains('&'),
        a.len() > 0,
        a[0] != '?',
    ensures
        config::asked(a) == config::with_pair(("http://127.0.0.1:7878"@, 4u32), a),
        config::asked(a + seq!['&'] + b) == config::with_pair(
            config::with_pair(("http://127.0.0.1:7878"@, 4u32), a),
            b,
        ),
{
    text::law_one_character_makes_two_parts(a, b, '&');
    let s = a + seq!['&'] + b;
    assert(s[0] == a[0]);
    assert(text::without_leading(a, '?') == a);
    assert(text::without_leading(s, '?') == s);
    let one = seq![a];
    let two = seq![a, b];
    assert(config::with_pairs(one, 1) == config::with_pair(config::with_pairs(one, 0), one[0]));
    assert(config::with_pairs(two, 1) == config::with_pair(config::with_pairs(two, 0), two[0]));
    assert(config::with_pairs(two, 2) == config::with_pair(config::with_pairs(two, 1), two[1]));
}

} // verus!
