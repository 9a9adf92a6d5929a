//! What the radar shows, line by line.

use crate::api::{ContactState, Flight, FlightDetail, Health, PictureResponse, VerticalTrend};
use crate::decimal;
use crate::detail::{self, Entry, EntryKind, EntryView};
use crate::display;
use crate::text;
use crate::tui::app::{App, Conn, DetailView};
use crate::tui::fit::{self, Group, GroupView};
use crate::tui::style::{self, Color, Style, Styled};
use vstd::prelude::*;

verus! {

/// What a line shows.
pub type LineView = Seq<(Seq<char>, Style)>;

pub open spec fn in_color(text: Seq<char>, color: Color) -> (Seq<char>, Style) {
    (text, Style { color, bold: false })
}

pub open spec fn in_bold(text: Seq<char>, color: Color) -> (Seq<char>, Style) {
    (text, Style { color, bold: true })
}

pub open spec fn as_is(text: Seq<char>) -> (Seq<char>, Style) {
    (text, style::plain())
}

/// The colour of a vertical trend.
pub open spec fn trend_color(trend: VerticalTrend) -> Color {
    match trend {
        VerticalTrend::Climb => Color::Green,
        VerticalTrend::Descend => Color::Cyan,
        _ => Color::DarkGray,
    }
}

/// The glyph and the colour of a vertical trend.
pub fn trend_glyph(trend: VerticalTrend) -> (r: (&'static str, Color))
    ensures
        r.0@ == display::glyph_text(trend),
        r.1 == trend_color(trend),
{
    let color = match trend {
        VerticalTrend::Climb => Color::Green,
        VerticalTrend::Descend => Color::Cyan,
        _ => Color::DarkGray,
    };
    (display::trend_glyph(trend), color)
}

/// A short word and a muted colour for a flight that is no longer heard.
pub open spec fn badge(state: ContactState) -> Option<(Seq<char>, Color)> {
    match state {
        ContactState::InContact => None,
        ContactState::Landed => Some(("landed"@, Color::DarkGray)),
        ContactState::LeftScope => Some(("left scope"@, Color::DarkGray)),
        ContactState::LostContact => Some(("lost"@, Color::Yellow)),
    }
}

/// A short word and a muted colour for a flight that is no longer heard.
pub fn lost_badge(state: ContactState) -> (r: Option<(&'static str, Color)>)
    ensures
        match r {
            Some((word, color)) => badge(state) == Some((word@, color)),
            None => badge(state) is None,
        },
{
    match state {
        ContactState::InContact => None,
        ContactState::Landed => Some(("landed", Color::DarkGray)),
        ContactState::LeftScope => Some(("left scope", Color::DarkGray)),
        ContactState::LostContact => Some(("lost", Color::Yellow)),
    }
}

/// The end of a row: a badge for a lost flight in place of its frozen approach, else an arrow
/// and when and how closely the flight will pass.
pub open spec fn row_end(t: Flight) -> (Seq<char>, Color, Seq<char>) {
    match badge(t.state) {
        Some((word, color)) => ("✕"@, color, word),
        None => match t.cpa {
            Some(c) => if c.approaching() {
                (
                    "▲"@,
                    Color::Green,
                    decimal::fixed_text(c.cpa_distance_nm, 0) + "nm/"@ + decimal::fixed_text(
                        c.time_to_cpa_s,
                        0,
                    ) + "s"@,
                )
            } else {
                ("▼"@, Color::Blue, ""@)
            },
            None => ("·"@, Color::DarkGray, ""@),
        },
    }
}

fn show_row_end(t: &Flight) -> (r: (&'static str, Color, String))
    ensures
        (r.0@, r.1, r.2@) == row_end(*t),
        t.state == ContactState::InContact && t.cpa is Some && t.cpa->0.approaching() ==> r.0@
            == "▲"@,
        t.state == ContactState::InContact && t.cpa is Some && !t.cpa->0.approaching() ==> r.0@
            == "▼"@,
{
    match lost_badge(t.state) {
        Some((word, color)) => ("✕", color, word.to_owned()),
        None => match t.cpa {
            Some(c) => if c.is_approaching() {
                let mut s = decimal::fixed(&c.cpa_distance_nm, 0);
                s.append("nm/");
                s.append(decimal::fixed(&c.time_to_cpa_s, 0).as_str());
                s.append("s");
                ("▲", Color::Green, s)
            } else {
                ("▼", Color::Blue, "".to_owned())
            },
            None => ("·", Color::DarkGray, "".to_owned()),
        },
    }
}

/// How a row's callsign is drawn: the pacing flight stands out, a lost or anonymous one is
/// faded.
pub open spec fn ident_style(t: Flight, pacing: bool) -> Style {
    if pacing {
        Style { color: Color::LightRed, bold: true }
    } else if t.state != ContactState::InContact || t.ident is None {
        Style { color: Color::DarkGray, bold: false }
    } else {
        style::plain()
    }
}

fn choose_ident_style(t: &Flight, pacing: bool) -> (r: Style)
    ensures
        r == ident_style(*t, pacing),
{
    if pacing {
        Style { color: Color::LightRed, bold: true }
    } else if t.state.is_lost() || t.ident.is_none() {
        Style { color: Color::DarkGray, bold: false }
    } else {
        Style { color: Color::Default, bold: false }
    }
}

/// A row's groups in the order they are shown, under their priorities: callsign, type,
/// distance and bearing, altitude and trend, groundspeed, and approach.
pub open spec fn row_groups(t: Flight, pacing: bool) -> Seq<GroupView> {
    let end = row_end(t);
    seq![
        (
            0u8,
            seq![
                (
                    decimal::left_aligned(display::label_text(t.ident, t.hex), 8),
                    ident_style(t, pacing),
                ),
            ],
        ),
        (
            4u8,
            seq![
                in_color(
                    " "@ + decimal::left_aligned(
                        match t.aircraft_type {
                            Some(k) => k@,
                            None => ""@,
                        },
                        4,
                    ),
                    Color::DarkGray,
                ),
            ],
        ),
        (
            1u8,
            seq![
                as_is(
                    " "@ + decimal::right_aligned(decimal::fixed_text(t.distance_nm, 1), 5)
                        + "nm "@ + decimal::degrees_text(t.bearing_deg) + "°"@,
                ),
            ],
        ),
        (
            2u8,
            seq![
                as_is(
                    " "@ + decimal::right_aligned(
                        match t.altitude_ft {
                            Some(a) => decimal::fixed_text(a, 0) + "ft"@,
                            None => "?"@,
                        },
                        7,
                    ),
                ),
                in_color(display::glyph_text(t.vertical_trend), trend_color(t.vertical_trend)),
            ],
        ),
        (
            3u8,
            seq![
                as_is(
                    match t.groundspeed_kt {
                        Some(g) => " "@ + decimal::right_aligned(decimal::fixed_text(g, 0), 3)
                            + "kt"@,
                        None => ""@,
                    },
                ),
            ],
        ),
        (5u8, seq![in_color(" "@ + end.0 + " "@, end.1), as_is(end.2)]),
    ]
}

fn build_row_groups(t: &Flight, pacing: bool) -> (r: Vec<Group>)
    ensures
        fit::groups_view(r@) == row_groups(*t, pacing),
{
    let mut groups: Vec<Group> = Vec::new();
    let label = decimal::align_left(display::label(t).as_str(), 8);
    groups.push(
        Group {
            priority: 0,
            spans: style::single(Styled { text: label, style: choose_ident_style(t, pacing) }),
        },
    );
    let kind = match &t.aircraft_type {
        Some(k) => k.as_str(),
        None => "",
    };
    let kind = text::concat(" ", decimal::align_left(kind, 4).as_str());
    groups.push(
        Group { priority: 4, spans: style::single(style::colored(kind, Color::DarkGray)) },
    );
    let mut place = text::concat3(
        " ",
        decimal::align_right(decimal::fixed(&t.distance_nm, 1).as_str(), 5).as_str(),
        "nm ",
    );
    place.append(decimal::degrees(&t.bearing_deg).as_str());
    place.append("°");
    groups.push(Group { priority: 1, spans: style::single(style::raw(place)) });
    let alt = match &t.altitude_ft {
        Some(a) => text::concat(decimal::fixed(a, 0).as_str(), "ft"),
        None => "?".to_owned(),
    };
    let alt = text::concat(" ", decimal::align_right(alt.as_str(), 7).as_str());
    let (glyph, glyph_color) = trend_glyph(t.vertical_trend);
    groups.push(
        Group {
            priority: 2,
            spans: style::pair(
                style::raw(alt),
                style::colored(glyph.to_owned(), glyph_color),
            ),
        },
    );
    let speed = match &t.groundspeed_kt {
        Some(g) => text::concat3(
            " ",
            decimal::align_right(decimal::fixed(g, 0).as_str(), 3).as_str(),
            "kt",
        ),
        None => "".to_owned(),
    };
    groups.push(Group { priority: 3, spans: style::single(style::raw(speed)) });
    let (arrow, arrow_color, approach) = show_row_end(t);
    groups.push(
        Group {
            priority: 5,
            spans: style::pair(
                style::colored(text::concat3(" ", arrow, " "), arrow_color),
                style::raw(approach),
            ),
        },
    );
    proof {
        let expected = row_groups(*t, pacing);
        assert(groups@[0]@ == expected[0]);
        assert(groups@[1]@ == expected[1]);
        assert(groups@[2]@ == expected[2]);
        assert(groups@[3]@ == expected[3]);
        assert(groups@[4]@ == expected[4]);
        assert(groups@[5]@ == expected[5]);
        assert(fit::groups_view(groups@) =~= expected);
    }
    groups
}

/// A flight's row in the list, in `max_width` columns.
pub fn list_row(t: &Flight, pacing_hex: &Option<String>, max_width: u16) -> (line: Vec<Styled>)
    ensures
        fit::is_row_of(
            style::line_view(line@),
            row_groups(*t, display::is_hex(t.hex, *pacing_hex)),
            max_width,
        ),
{
    let pacing = display::names(&t.hex, pacing_hex);
    fit::fit_groups(build_row_groups(t, pacing), max_width)
}

/// How fresh the data is: label, colour, and the failure that goes with it.
pub open spec fn freshness(health: Health, last_error: Option<String>) -> (
    Seq<char>,
    Color,
    Option<Seq<char>>,
) {
    match health {
        Health::Live => ("LIVE"@, Color::Green, None),
        Health::Stale => ("STALE"@, Color::Yellow, text::opt(last_error)),
        Health::NoData => ("NO DATA"@, Color::Red, text::opt(last_error)),
    }
}

/// How fresh the data is: label, colour, and the failure that goes with it.
pub fn show_freshness(health: Health, last_error: &Option<String>) -> (r: (
    &'static str,
    Color,
    Option<String>,
))
    ensures
        (r.0@, r.1, text::opt(r.2)) == freshness(health, *last_error),
{
    match health {
        Health::Live => ("LIVE", Color::Green, None),
        Health::Stale => ("STALE", Color::Yellow, last_error.clone()),
        Health::NoData => ("NO DATA", Color::Red, last_error.clone()),
    }
}

/// The state's label and colour, and the failure that goes with it. A server that cannot be
/// reached outranks what it last said of its data.
pub open spec fn state_of(app: App) -> (Seq<char>, Color, Option<Seq<char>>) {
    match app.conn {
        Conn::Down(e) => ("UNREACHABLE"@, Color::Red, Some(e@)),
        Conn::Up => match app.picture {
            Some(p) => freshness(p.health, p.last_error),
            None => freshness(Health::NoData, None),
        },
    }
}

fn show_state(app: &App) -> (r: (&'static str, Color, Option<String>))
    ensures
        (r.0@, r.1, text::opt(r.2)) == state_of(*app),
{
    match &app.conn {
        Conn::Down(e) => ("UNREACHABLE", Color::Red, Some(e.clone())),
        Conn::Up => match &app.picture {
            Some(p) => show_freshness(p.health, &p.last_error),
            None => show_freshness(Health::NoData, &None),
        },
    }
}

/// The address of the flight that paces.
pub open spec fn pacing_of(picture: Option<PictureResponse>) -> Option<String> {
    match picture {
        Some(p) => p.pacing_hex,
        None => None,
    }
}

/// How long ago the data was taken.
pub open spec fn age_of(picture: Option<PictureResponse>) -> Seq<char> {
    match picture {
        Some(p) => display::or_dash(p.snapshot_age_s, 0, "s ago"@),
        None => "—"@,
    }
}

/// The nearest flight in words, with a badge where it is lost.
pub open spec fn nearest_text(flights: Seq<Flight>) -> Seq<char> {
    if flights.len() == 0 {
        "(none)"@
    } else {
        let f = flights[0];
        let place = display::position_text(
            f.ident,
            f.hex,
            f.aircraft_type,
            f.distance_nm,
            f.bearing_deg,
            f.altitude_ft,
        );
        match badge(f.state) {
            Some((word, _)) => place + "  [lost: "@ + word + "]"@,
            None => place,
        }
    }
}

/// The pacing flight in words.
pub open spec fn pacing_text(flights: Seq<Flight>, pacing: Option<String>) -> Seq<char> {
    match display::named(flights, pacing) {
        Some(f) => display::approach_text(f.ident, f.hex, display::cpa_pair(f.cpa)),
        None => "quiet — backing off"@,
    }
}

/// The first line of a status block.
pub open spec fn head_view(
    source: Seq<char>,
    label: Seq<char>,
    color: Color,
    count: nat,
    age: Seq<char>,
) -> LineView {
    seq![
        as_is("source "@),
        in_bold(source, Color::Default),
        as_is("  "@),
        in_bold("["@ + label + "]"@, color),
        as_is("  "@ + decimal::dec(count) + " flights · "@ + age),
    ]
}

/// The line about the selected flight, or about the keys where none is.
pub open spec fn choice_view(flights: Seq<Flight>, selected: Option<String>) -> LineView {
    match display::named(flights, selected) {
        Some(t) => seq![in_color(display::selected_text(t), Color::White)],
        None => seq![
            in_color("↑/↓ select · Enter detail · Esc clear · q quit"@, Color::DarkGray),
        ],
    }
}

/// The status block.
pub open spec fn status_view(app: App) -> Seq<LineView> {
    let state = state_of(app);
    let head: Seq<LineView> = seq![
        head_view(app.meta.source@, state.0, state.1, app.flights().len(), age_of(app.picture)),
        seq![as_is("nearest  "@ + nearest_text(app.flights()))],
        seq![as_is("pacing   "@ + pacing_text(app.flights(), pacing_of(app.picture)))],
        seq![as_is("relevance "@ + decimal::fixed_text(app.meta.relevance_nm, 0) + "nm"@)],
        choice_view(app.flights(), app.selected_hex),
    ];
    match state.2 {
        Some(e) => head.push(seq![in_color("! "@ + e, Color::Red)]),
        None => head,
    }
}

/// The first line of a status block.
pub fn show_head(
    source: &str,
    label: &str,
    color: Color,
    count: usize,
    age: &str,
) -> (r: Vec<Styled>)
    ensures
        style::line_view(r@) == head_view(source@, label@, color, count as nat, age@),
{
    let mut counts = text::concat("  ", decimal::decimal(count as u128).as_str());
    counts.append(" flights · ");
    counts.append(age);
    let mut line: Vec<Styled> = Vec::new();
    line.push(style::raw("source ".to_owned()));
    line.push(style::bold(source.to_owned(), Color::Default));
    line.push(style::raw("  ".to_owned()));
    line.push(style::bold(text::concat3("[", label, "]"), color));
    line.push(style::raw(counts));
    assert(style::line_view(line@) =~= head_view(source@, label@, color, count as nat, age@));
    line
}

/// The nearest flight in words, with a badge where it is lost.
pub fn show_nearest(tracks: &[Flight]) -> (r: String)
    ensures
        r@ == nearest_text(tracks@),
{
    if tracks.len() == 0 {
        return "(none)".to_owned();
    }
    let f = &tracks[0];
    let mut s = display::fmt_position(f);
    match lost_badge(f.state) {
        Some((word, _)) => {
            s.append("  [lost: ");
            s.append(word);
            s.append("]");
        },
        None => {},
    }
    s
}

/// The pacing flight in words.
pub fn show_pacing(tracks: &[Flight], pacing: &Option<String>) -> (r: String)
    ensures
        r@ == pacing_text(tracks@, *pacing),
{
    match display::find_named(tracks, pacing) {
        Some(f) => display::fmt_pacing(f),
        None => "quiet — backing off".to_owned(),
    }
}

/// The line about the selected flight, or about the keys where none is.
pub fn show_choice(tracks: &[Flight], selected: &Option<String>) -> (r: Vec<Styled>)
    ensures
        style::line_view(r@) == choice_view(tracks@, *selected),
{
    let choice = match display::find_named(tracks, selected) {
        Some(t) => style::colored(display::fmt_selected(t), Color::White),
        None => style::colored(
            "↑/↓ select · Enter detail · Esc clear · q quit".to_owned(),
            Color::DarkGray,
        ),
    };
    style::single(choice)
}

/// The status block.
pub fn status_lines(app: &App) -> (r: Vec<Vec<Styled>>)
    ensures
        style::lines_view(r@) == status_view(*app),
{
    let (label, color, error) = show_state(app);
    let tracks = app.tracks();
    let pacing = match &app.picture {
        Some(p) => p.pacing_hex.clone(),
        None => None,
    };
    let mut lines: Vec<Vec<Styled>> = Vec::new();
    let age = match &app.picture {
        Some(p) => display::number_or_dash(&p.snapshot_age_s, 0, "s ago"),
        None => "—".to_owned(),
    };
    lines.push(show_head(app.meta.source.as_str(), label, color, tracks.len(), age.as_str()));
    lines.push(style::single(style::raw(text::concat("nearest  ", show_nearest(tracks).as_str()))));
    lines.push(
        style::single(style::raw(text::concat("pacing   ", show_pacing(tracks, &pacing).as_str()))),
    );
    lines.push(
        style::single(
            style::raw(
                text::concat3(
                    "relevance ",
                    decimal::fixed(&app.meta.relevance_nm, 0).as_str(),
                    "nm",
                ),
            ),
        ),
    );
    lines.push(show_choice(tracks, &app.selected_hex));
    match error {
        Some(e) => lines.push(
            style::single(style::colored(text::concat("! ", e.as_str()), Color::Red)),
        ),
        None => {},
    }
    assert(style::lines_view(lines@) =~= status_view(*app));
    lines
}

/// A server that cannot be reached is shown as such, whatever it last said of its data.
pub proof fn law_unreachable_outranks_health(app: App)
    requires
        app.conn is Down,
    ensures
        status_view(app)[0][3] == in_bold("["@ + "UNREACHABLE"@ + "]"@, Color::Red),
        status_view(app).last() == seq![in_color("! "@ + app.conn->Down_0@, Color::Red)],
{
}

/// The colour of a blip: selected, then lost, then pacing, then nearest, then anonymous, then
/// by approach.
pub open spec fn color_of(
    f: Flight,
    nearest: Option<String>,
    pacing: Option<String>,
    selected: Option<String>,
) -> Color {
    if display::is_hex(f.hex, selected) {
        Color::White
    } else if f.state != ContactState::InContact {
        Color::DarkGray
    } else if display::is_hex(f.hex, pacing) {
        Color::LightRed
    } else if display::is_hex(f.hex, nearest) {
        Color::Cyan
    } else if f.ident is None {
        Color::DarkGray
    } else if f.cpa is Some && f.cpa->0.approaching() {
        Color::Green
    } else {
        Color::Blue
    }
}

/// The colour of a blip.
pub fn blip_color(
    f: &Flight,
    nearest: &Option<String>,
    pacing: &Option<String>,
    selected: &Option<String>,
) -> (r: Color)
    ensures
        r == color_of(*f, *nearest, *pacing, *selected),
{
    if display::names(&f.hex, selected) {
        return Color::White;
    }
    if f.state.is_lost() {
        return Color::DarkGray;
    }
    if display::names(&f.hex, pacing) {
        return Color::LightRed;
    }
    if display::names(&f.hex, nearest) {
        return Color::Cyan;
    }
    if f.ident.is_none() {
        return Color::DarkGray;
    }
    match f.cpa {
        Some(c) => if c.is_approaching() {
            Color::Green
        } else {
            Color::Blue
        },
        None => Color::Blue,
    }
}

/// The label of a blip, with a cross where the flight is lost.
pub open spec fn blip_label(f: Flight) -> Seq<char> {
    if f.state != ContactState::InContact {
        display::label_text(f.ident, f.hex) + " ✕"@
    } else {
        display::label_text(f.ident, f.hex)
    }
}

/// The label of a blip that has a part to play; the others have none.
pub fn radar_label(
    f: &Flight,
    nearest: &Option<String>,
    pacing: &Option<String>,
    selected: &Option<String>,
) -> (r: Option<Styled>)
    ensures
        match r {
            Some(s) => display::flagged(*f, *nearest, *pacing, *selected) && s@ == in_color(
                blip_label(*f),
                color_of(*f, *nearest, *pacing, *selected),
            ),
            None => !display::flagged(*f, *nearest, *pacing, *selected),
        },
{
    if !display::is_flagged(f, nearest, pacing, selected) {
        return None;
    }
    let label = if f.state.is_lost() {
        text::concat(display::label(f).as_str(), " ✕")
    } else {
        display::label(f)
    };
    Some(style::colored(label, blip_color(f, nearest, pacing, selected)))
}

/// The warning over a lost flight's detail.
pub open spec fn banner_view(f: Flight) -> Option<LineView> {
    match display::banner_text(f) {
        Some(words) => Some(
            seq![
                in_bold(
                    words,
                    if f.state == ContactState::LostContact {
                        Color::Yellow
                    } else {
                        Color::DarkGray
                    },
                ),
            ],
        ),
        None => None,
    }
}

/// What an optional line shows.
pub open spec fn opt_line(line: Option<Vec<Styled>>) -> Option<LineView> {
    match line {
        Some(l) => Some(style::line_view(l@)),
        None => None,
    }
}

/// The warning over a lost flight's detail; none while in contact.
pub fn lost_banner(f: &Flight) -> (r: Option<Vec<Styled>>)
    ensures
        opt_line(r) == banner_view(*f),
{
    match display::lost_banner(f) {
        Some(words) => {
            let color = if f.state == ContactState::LostContact {
                Color::Yellow
            } else {
                Color::DarkGray
            };
            Some(style::single(style::bold(words, color)))
        },
        None => None,
    }
}

/// A labelled value in the detail view.
pub open spec fn field_view(label: Seq<char>, value: Seq<char>) -> LineView {
    seq![in_color("  "@ + decimal::left_aligned(label, 16), Color::DarkGray), as_is(value)]
}

/// A line without text.
pub open spec fn blank() -> LineView {
    seq![as_is(""@)]
}

/// The lines of an entry: a section stands under an empty line.
pub open spec fn entry_lines(e: EntryView) -> Seq<LineView> {
    match e.0 {
        EntryKind::Header => seq![seq![in_bold(e.1, Color::White)]],
        EntryKind::Section => seq![blank(), seq![in_bold(e.1, Color::Yellow)]],
        EntryKind::Field => seq![field_view(e.1, e.2)],
    }
}

/// The lines of the first `n` entries.
pub open spec fn entries_lines(entries: Seq<EntryView>, n: nat) -> Seq<LineView>
    decreases n,
{
    if n == 0 {
        Seq::empty()
    } else {
        entries_lines(entries, (n - 1) as nat) + entry_lines(entries[n - 1])
    }
}

/// Everything there is to show of a flight.
pub open spec fn detail_view(d: FlightDetail) -> Seq<LineView> {
    let all = detail::everything(d, false);
    entries_lines(all, all.len())
}

fn push_entry(lines: &mut Vec<Vec<Styled>>, e: &Entry)
    ensures
        style::lines_view(final(lines)@) == style::lines_view(old(lines)@) + entry_lines(e@),
{
    let ghost before = style::lines_view(lines@);
    match e.kind {
        EntryKind::Header => style::push_line(
            lines,
            style::single(style::bold(e.label.clone(), Color::White)),
        ),
        EntryKind::Section => {
            style::push_line(lines, style::single(style::raw("".to_owned())));
            style::push_line(
                lines,
                style::single(style::bold(e.label.clone(), Color::Yellow)),
            );
        },
        EntryKind::Field => {
            let label = text::concat("  ", decimal::align_left(e.label.as_str(), 16).as_str());
            style::push_line(
                lines,
                style::pair(
                    style::colored(label, Color::DarkGray),
                    style::raw(e.value.clone()),
                ),
            );
        },
    }
    assert(style::lines_view(lines@) =~= before + entry_lines(e@));
}

/// Everything there is to show of a flight.
pub fn detail_lines(d: &FlightDetail) -> (r: Vec<Vec<Styled>>)
    ensures
        style::lines_view(r@) == detail_view(*d),
{
    let entries = detail::entries(d, false);
    let ghost all = detail::entries_view(entries@);
    let mut lines: Vec<Vec<Styled>> = Vec::new();
    let mut i: usize = 0;
    assert(style::lines_view(lines@) =~= entries_lines(all, 0));
    while i < entries.len()
        invariant
            i <= entries.len(),
            all == detail::entries_view(entries@),
            style::lines_view(lines@) == entries_lines(all, i as nat),
        decreases entries.len() - i,
    {
        push_entry(&mut lines, &entries[i]);
        i = i + 1;
    }
    lines
}

/// A text in place of a detail.
pub open spec fn notice_view(words: Seq<char>) -> Seq<LineView> {
    seq![blank(), seq![in_color("  "@ + words, Color::DarkGray)]]
}

fn notice(words: &str) -> (r: Vec<Vec<Styled>>)
    ensures
        style::lines_view(r@) == notice_view(words@),
{
    let mut lines: Vec<Vec<Styled>> = Vec::new();
    lines.push(style::single(style::raw("".to_owned())));
    lines.push(style::single(style::colored(text::concat("  ", words), Color::DarkGray)));
    assert(style::lines_view(lines@) =~= notice_view(words@));
    lines
}

/// The body of the detail view: what is loaded, under its warning where there is one, or why
/// there is nothing.
pub open spec fn popup_view(view: Option<DetailView>, banner: Option<LineView>) -> Seq<LineView> {
    match view {
        Some(DetailView::Loaded(d)) => match banner {
            Some(b) => seq![b, blank()] + detail_view(*d),
            None => detail_view(*d),
        },
        Some(DetailView::LeftArea) => notice_view("— flight left the area —"@),
        Some(DetailView::Error(e)) => notice_view("— "@ + e@ + " —"@),
        None => notice_view("— loading… —"@),
    }
}

/// The keys that the detail view names.
pub open spec fn popup_footer(view: Option<DetailView>) -> Seq<char> {
    match view {
        Some(DetailView::Loaded(_)) => "Esc close · ↑/↓ flight · PgUp/PgDn scroll"@,
        Some(DetailView::LeftArea) => "Esc close · ↑/↓ next flight"@,
        _ => "Esc close"@,
    }
}

/// The body of the detail view and the keys under it.
pub fn popup(view: &Option<DetailView>, banner: Option<Vec<Styled>>) -> (r: (
    Vec<Vec<Styled>>,
    &'static str,
))
    ensures
        style::lines_view(r.0@) == popup_view(*view, opt_line(banner)),
        r.1@ == popup_footer(*view),
{
    match view {
        Some(DetailView::Loaded(d)) => {
            let mut lines = detail_lines(d);
            match banner {
                Some(b) => {
                    let ghost body = style::lines_view(lines@);
                    let ghost warning = style::line_view(b@);
                    lines.insert(0, b);
                    lines.insert(1, style::single(style::raw("".to_owned())));
                    assert(style::lines_view(lines@) =~= seq![warning, blank()] + body);
                },
                None => {},
            }
            (lines, "Esc close · ↑/↓ flight · PgUp/PgDn scroll")
        },
        Some(DetailView::LeftArea) => (
            notice("— flight left the area —"),
            "Esc close · ↑/↓ next flight",
        ),
        Some(DetailView::Error(e)) => (
            notice(text::concat3("— ", e.as_str(), " —").as_str()),
            "Esc close",
        ),
        None => (notice("— loading… —"), "Esc close"),
    }
}

/// The warning that goes over the detail of the selected flight, as the latest picture has it.
pub fn popup_banner(app: &App) -> (r: Option<Vec<Styled>>)
    ensures
        opt_line(r) == (match display::named(app.flights(), app.selected_hex) {
            Some(f) => banner_view(f),
            None => None,
        }),
{
    match display::find_named(app.tracks(), &app.selected_hex) {
        Some(f) => lost_banner(f),
        None => None,
    }
}

} // verus!
