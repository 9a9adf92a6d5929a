//! What the status bar shows of the nearest flight.

use crate::api::{ContactState, Flight, Health, NearestResponse, VerticalTrend};
use crate::client::ClientError;
use crate::decimal;
use crate::display;
use crate::number::Number;
use crate::text;
use vstd::prelude::*;

verus! {

/// A character as Pango markup shows it.
pub open spec fn escaped_char(c: char) -> Seq<char> {
    if c == '&' {
        "&amp;"@
    } else if c == '<' {
        "&lt;"@
    } else if c == '>' {
        "&gt;"@
    } else {
        seq![c]
    }
}

/// A text as Pango markup shows it.
pub open spec fn escaped(s: Seq<char>) -> Seq<char>
    decreases s.len(),
{
    if s.len() == 0 {
        Seq::empty()
    } else {
        escaped(s.drop_last()) + escaped_char(s.last())
    }
}

/// A text with the metacharacters of Pango markup escaped.
pub fn pango_escape(s: &str) -> (r: String)
    ensures
        r@ == escaped(s@),
{
    let v = text::chars_of(s);
    let mut out = String::new();
    let mut i: usize = 0;
    assert(v@.take(0) =~= Seq::<char>::empty());
    while i < v.len()
        invariant
            i <= v.len(),
            v@ == s@,
            out@ == escaped(v@.take(i as int)),
        decreases v.len() - i,
    {
        let c = v[i];
        proof {
            let next = v@.take(i + 1);
            assert(next.drop_last() =~= v@.take(i as int));
            assert(next.last() == c);
        }
        if c == '&' {
            out.append("&amp;");
        } else if c == '<' {
            out.append("&lt;");
        } else if c == '>' {
            out.append("&gt;");
        } else {
            let ghost before = out@;
            out.push(c);
            assert(out@ =~= before + seq![c]);
        }
        i = i + 1;
    }
    assert(v@.take(v.len() as int) =~= v@);
    out
}

/// What the status bar is given: the line, what hovering shows, and the style class.
#[derive(Debug, PartialEq)]
pub struct Bar {
    pub text: String,
    pub tooltip: String,
    pub class: String,
}

impl Bar {
    /// Nothing to show.
    pub open spec fn is_empty(self) -> bool {
        self.text@ == ""@ && self.tooltip@ == ""@ && self.class@ == ""@
    }

    /// A visible mark that there is no data, and why.
    pub open spec fn is_error(self, detail: Seq<char>) -> bool {
        self.text@ == escaped("✈ ?"@) && self.tooltip@ == escaped(detail) && self.class@
            == "error"@
    }

    /// Nothing to show: the bar collapses.
    pub fn empty() -> (r: Bar)
        ensures
            r.is_empty(),
    {
        Bar { text: "".to_owned(), tooltip: "".to_owned(), class: "".to_owned() }
    }

    /// A visible mark that there is no data, and why.
    pub fn error(detail: &str) -> (r: Bar)
        ensures
            r.is_error(detail@),
    {
        Bar {
            text: pango_escape("✈ ?"),
            tooltip: pango_escape(detail),
            class: "error".to_owned(),
        }
    }
}

/// The style class of a flight that is shown: a stale picture outranks a lost flight.
pub open spec fn class_text(health: Health, state: ContactState) -> Seq<char> {
    if health == Health::Stale {
        "stale"@
    } else if state == ContactState::InContact {
        ""@
    } else {
        "lost"@
    }
}

/// The style class of a flight that is shown.
pub fn class_for(health: Health, state: ContactState) -> (r: &'static str)
    ensures
        r@ == class_text(health, state),
{
    match health {
        Health::Stale => "stale",
        _ => match state {
            ContactState::InContact => "",
            _ => "lost",
        },
    }
}

/// The line: callsign, type, distance, bearing, altitude and trend, as far as known.
pub open spec fn line_text(f: Flight) -> Seq<char> {
    "✈ "@ + display::label_text(f.ident, f.hex) + display::spaced(f.aircraft_type) + " "@
        + decimal::fixed_text(f.distance_nm, 1) + "nm "@ + decimal::degrees_text(f.bearing_deg)
        + "°"@ + (match f.altitude_ft {
        Some(a) => " "@ + decimal::fixed_text(a, 0) + "ft"@,
        None => ""@,
    }) + (if f.vertical_trend == VerticalTrend::Unknown {
        ""@
    } else {
        " "@ + display::glyph_text(f.vertical_trend)
    })
}

/// The line of a flight.
pub fn text_line(f: &Flight) -> (r: String)
    ensures
        r@ == line_text(*f),
{
    let mut s = "✈ ".to_owned();
    s.append(display::label(f).as_str());
    match &f.aircraft_type {
        Some(t) => s.append(text::concat(" ", t.as_str()).as_str()),
        None => s.append(""),
    }
    s.append(" ");
    s.append(decimal::fixed(&f.distance_nm, 1).as_str());
    s.append("nm ");
    s.append(decimal::degrees(&f.bearing_deg).as_str());
    s.append("°");
    match &f.altitude_ft {
        Some(a) => s.append(text::concat3(" ", decimal::fixed(a, 0).as_str(), "ft").as_str()),
        None => s.append(""),
    }
    if f.vertical_trend == VerticalTrend::Unknown {
        s.append("");
    } else {
        s.append(text::concat(" ", display::trend_glyph(f.vertical_trend)).as_str());
    }
    s
}

/// Type and model behind the callsign.
pub open spec fn kind_text(f: Flight) -> Seq<char> {
    match (f.aircraft_type, f.model) {
        (Some(t), Some(m)) => " · "@ + t@ + " "@ + m@,
        (Some(t), None) => " · "@ + t@,
        (None, Some(m)) => " · "@ + m@,
        (None, None) => ""@,
    }
}

fn show_kind(f: &Flight) -> (r: String)
    ensures
        r@ == kind_text(*f),
{
    match (&f.aircraft_type, &f.model) {
        (Some(t), Some(m)) => {
            let mut s = text::concat3(" · ", t.as_str(), " ");
            s.append(m.as_str());
            s
        },
        (Some(t), None) => text::concat(" · ", t.as_str()),
        (None, Some(m)) => text::concat(" · ", m.as_str()),
        (None, None) => "".to_owned(),
    }
}

/// Altitude with the trend's glyph.
pub open spec fn altitude_text(f: Flight) -> Seq<char> {
    match f.altitude_ft {
        Some(a) => if f.vertical_trend == VerticalTrend::Unknown {
            decimal::fixed_text(a, 0) + " ft"@
        } else {
            decimal::fixed_text(a, 0) + " ft "@ + display::glyph_text(f.vertical_trend)
        },
        None => "—"@,
    }
}

fn show_altitude(f: &Flight) -> (r: String)
    ensures
        r@ == altitude_text(*f),
{
    match &f.altitude_ft {
        Some(a) => if f.vertical_trend == VerticalTrend::Unknown {
            text::concat(decimal::fixed(a, 0).as_str(), " ft")
        } else {
            text::concat3(
                decimal::fixed(a, 0).as_str(),
                " ft ",
                display::trend_glyph(f.vertical_trend),
            )
        },
        None => "—".to_owned(),
    }
}

/// The closest approach of a flight in contact that is still approaching.
pub open spec fn approach_line(f: Flight) -> Option<Seq<char>> {
    if f.state == ContactState::InContact && f.cpa is Some && f.cpa->0.approaching() {
        Some(
            "CPA "@ + decimal::fixed_text(f.cpa->0.cpa_distance_nm, 1) + " nm in "@
                + decimal::fixed_text(f.cpa->0.time_to_cpa_s, 0) + "s"@,
        )
    } else {
        None
    }
}

fn show_approach(f: &Flight) -> (r: Option<String>)
    ensures
        text::opt(r) == approach_line(*f),
{
    if f.state != ContactState::InContact {
        return None;
    }
    match f.cpa {
        Some(c) => if c.is_approaching() {
            let mut s = "CPA ".to_owned();
            s.append(decimal::fixed(&c.cpa_distance_nm, 1).as_str());
            s.append(" nm in ");
            s.append(decimal::fixed(&c.time_to_cpa_s, 0).as_str());
            s.append("s");
            Some(s)
        } else {
            None
        },
        None => None,
    }
}

/// How old the data of a flight in contact is.
pub open spec fn freshness_line(f: Flight, health: Health, snapshot_age_s: Option<Number>) -> Option<
    Seq<char>,
> {
    if f.state != ContactState::InContact {
        None
    } else if health == Health::Stale {
        match snapshot_age_s {
            Some(age) => Some("stale — snapshot "@ + decimal::fixed_text(age, 0) + "s old"@),
            None => Some("stale"@),
        }
    } else {
        Some("updated "@ + decimal::fixed_text(f.age_s, 0) + "s ago"@)
    }
}

fn show_freshness(f: &Flight, health: Health, snapshot_age_s: &Option<Number>) -> (r: Option<
    String,
>)
    ensures
        text::opt(r) == freshness_line(*f, health, *snapshot_age_s),
{
    if f.state != ContactState::InContact {
        return None;
    }
    if health == Health::Stale {
        match snapshot_age_s {
            Some(age) => Some(
                text::concat3("stale — snapshot ", decimal::fixed(age, 0).as_str(), "s old"),
            ),
            None => Some("stale".to_owned()),
        }
    } else {
        Some(text::concat3("updated ", decimal::fixed(&f.age_s, 0).as_str(), "s ago"))
    }
}

/// What hovering shows, line by line.
pub open spec fn tooltip_lines(f: Flight, health: Health, snapshot_age_s: Option<Number>) -> Seq<
    Seq<char>,
> {
    display::maybe(display::banner_text(f)) + display::one(
        display::label_text(f.ident, f.hex) + kind_text(f),
    ) + display::maybe(text::opt(f.operator)) + display::maybe(
        match f.registration {
            Some(reg) => Some("Reg "@ + reg@),
            None => None,
        },
    ) + display::one(
        decimal::fixed_text(f.distance_nm, 1) + " nm @ "@ + decimal::degrees_text(f.bearing_deg)
            + "°"@,
    ) + display::one("Alt "@ + altitude_text(f)) + display::one(
        "Spd "@ + display::or_dash(f.groundspeed_kt, 0, " kt"@),
    ) + display::one(
        "Trk "@ + (match f.track_deg {
            Some(t) => decimal::degrees_text(t) + "°"@,
            None => "—"@,
        }),
    ) + display::one(
        "Vr "@ + (match f.vertical_rate_fpm {
            Some(r) => decimal::signed_text(r, 0) + " fpm"@,
            None => "—"@,
        }),
    ) + display::maybe(approach_line(f)) + display::maybe(
        freshness_line(f, health, snapshot_age_s),
    )
}

/// What hovering shows.
pub fn tooltip(f: &Flight, resp: &NearestResponse) -> (r: String)
    ensures
        r@ == text::joined(tooltip_lines(*f, resp.health, resp.snapshot_age_s), "\n"@),
{
    let mut lines: Vec<String> = Vec::new();
    let ghost none = text::all(lines@);
    assert(none =~= Seq::empty());
    display::push_maybe(&mut lines, display::lost_banner(f));
    assert(text::all(lines@) =~= display::maybe(display::banner_text(*f)));
    display::push_line(
        &mut lines,
        text::concat(display::label(f).as_str(), show_kind(f).as_str()),
    );
    display::push_maybe(&mut lines, f.operator.clone());
    let reg = match &f.registration {
        Some(reg) => Some(text::concat("Reg ", reg.as_str())),
        None => None,
    };
    display::push_maybe(&mut lines, reg);
    let mut position = decimal::fixed(&f.distance_nm, 1);
    position.append(" nm @ ");
    position.append(decimal::degrees(&f.bearing_deg).as_str());
    position.append("°");
    display::push_line(&mut lines, position);
    display::push_line(&mut lines, text::concat("Alt ", show_altitude(f).as_str()));
    display::push_line(
        &mut lines,
        text::concat("Spd ", display::number_or_dash(&f.groundspeed_kt, 0, " kt").as_str()),
    );
    let track = match &f.track_deg {
        Some(t) => text::concat(decimal::degrees(t).as_str(), "°"),
        None => "—".to_owned(),
    };
    display::push_line(&mut lines, text::concat("Trk ", track.as_str()));
    let rate = match &f.vertical_rate_fpm {
        Some(r) => text::concat(decimal::signed(r, 0).as_str(), " fpm"),
        None => "—".to_owned(),
    };
    display::push_line(&mut lines, text::concat("Vr ", rate.as_str()));
    display::push_maybe(&mut lines, show_approach(f));
    display::push_maybe(&mut lines, show_freshness(f, resp.health, &resp.snapshot_age_s));
    text::join(&lines, "\n")
}

/// Whether an answer leaves something to show: data, and a flight within the display range.
pub open spec fn shows(resp: NearestResponse, range_nm: Number) -> bool {
    resp.health != Health::NoData && resp.flight is Some && resp.flight->0.distance_nm.at_most(
        range_nm,
    )
}

/// What the bar shows of an answer.
pub open spec fn is_bar_of(bar: Bar, resp: NearestResponse, range_nm: Number) -> bool {
    if resp.health == Health::NoData {
        bar.is_error("no data yet — flights-server has no Snapshot"@)
    } else if !shows(resp, range_nm) {
        bar.is_empty()
    } else {
        let f = resp.flight->0;
        &&& bar.text@ == escaped(line_text(f))
        &&& bar.tooltip@ == escaped(
            text::joined(tooltip_lines(f, resp.health, resp.snapshot_age_s), "\n"@),
        )
        &&& bar.class@ == class_text(resp.health, f.state)
    }
}

/// What the bar shows of an answer.
pub fn build(resp: &NearestResponse, range_nm: &Number) -> (r: Bar)
    ensures
        is_bar_of(r, *resp, *range_nm),
{
    if resp.health == Health::NoData {
        return Bar::error("no data yet — flights-server has no Snapshot");
    }
    match &resp.flight {
        Some(f) => if f.distance_nm.is_at_most(range_nm) {
            Bar {
                text: pango_escape(text_line(f).as_str()),
                tooltip: pango_escape(tooltip(f, resp).as_str()),
                class: class_for(resp.health, f.state).to_owned(),
            }
        } else {
            Bar::empty()
        },
        None => Bar::empty(),
    }
}

/// What the bar shows of a request, answered or not.
pub fn render(outcome: &Result<NearestResponse, ClientError>, range_nm: &Number) -> (r: Bar)
    ensures
        outcome is Ok ==> is_bar_of(r, outcome->Ok_0, *range_nm),
        outcome is Err ==> r.is_error("flights-server: "@ + outcome->Err_0.words()),
{
    match outcome {
        Ok(resp) => build(resp, range_nm),
        Err(e) => Bar::error(text::concat("flights-server: ", e.message().as_str()).as_str()),
    }
}

proof fn lemma_escapes_spelled()
    ensures
        "&amp;"@ == seq!['&', 'a', 'm', 'p', ';'],
        "&lt;"@ == seq!['&', 'l', 't', ';'],
        "&gt;"@ == seq!['&', 'g', 't', ';'],
{
    reveal_strlit("&amp;");
    reveal_strlit("&lt;");
    reveal_strlit("&gt;");
    assert("&amp;"@ =~= seq!['&', 'a', 'm', 'p', ';']);
    assert("&lt;"@ =~= seq!['&', 'l', 't', ';']);
    assert("&gt;"@ =~= seq!['&', 'g', 't', ';']);
}

/// Whether an escape stands at `i`.
pub open spec fn escape_at(s: Seq<char>, i: int) -> bool {
    ||| i + 5 <= s.len() && s.subrange(i, i + 5) == "&amp;"@
    ||| i + 4 <= s.len() && s.subrange(i, i + 4) == "&lt;"@
    ||| i + 4 <= s.len() && s.subrange(i, i + 4) == "&gt;"@
}

/// No metacharacter reaches the markup by itself: there is no angle bracket, and every
/// ampersand begins an escape.
pub proof fn law_escaped_text_is_plain(s: Seq<char>)
    ensures
        forall|i: int|
            0 <= i < escaped(s).len() ==> #[trigger] escaped(s)[i] != '<' && escaped(s)[i] != '>'
                && (escaped(s)[i] == '&' ==> escape_at(escaped(s), i)),
    decreases s.len(),
{
    lemma_escapes_spelled();
    if s.len() > 0 {
        let front = escaped(s.drop_last());
        let last = escaped_char(s.last());
        law_escaped_text_is_plain(s.drop_last());
        let whole = escaped(s);
        assert forall|i: int| 0 <= i < whole.len() implies #[trigger] whole[i] != '<' && whole[i]
            != '>' && (whole[i] == '&' ==> escape_at(whole, i)) by {
            if i < front.len() {
                assert(whole[i] == front[i]);
                if whole[i] == '&' {
                    assert(escape_at(front, i));
                    if i + 5 <= front.len() {
                        assert(whole.subrange(i, i + 5) =~= front.subrange(i, i + 5));
                    }
                    if i + 4 <= front.len() {
                        assert(whole.subrange(i, i + 4) =~= front.subrange(i, i + 4));
                    }
                }
            } else {
                assert(whole[i] == last[i - front.len()]);
                if whole[i] == '&' {
                    let n = last.len() as int;
                    assert(i == front.len());
                    assert(whole.subrange(i, i + n) =~= last);
                }
            }
        }
    }
}

proof fn lemma_escaped_front(s: Seq<char>)
    requires
        s.len() > 0,
    ensures
        escaped(s) == escaped_char(s[0]) + escaped(s.drop_first()),
    decreases s.len(),
{
    if s.len() == 1 {
        assert(s.drop_last() =~= Seq::empty());
        assert(s.drop_first() =~= Seq::empty());
        assert(escaped(s) =~= escaped_char(s[0]) + escaped(s.drop_first()));
    } else {
        let body = s.drop_last();
        lemma_escaped_front(body);
        assert(body.drop_first() =~= s.drop_first().drop_last());
        assert(escaped(s) =~= escaped_char(s[0]) + escaped(s.drop_first()));
    }
}

/// Escaping loses nothing: two texts that are escaped alike are the same.
pub proof fn law_escaping_is_injective(a: Seq<char>, b: Seq<char>)
    requires
        escaped(a) == escaped(b),
    ensures
        a == b,
    decreases a.len(),
{
    lemma_escapes_spelled();
    if a.len() == 0 || b.len() == 0 {
        if a.len() > 0 {
            lemma_escaped_front(a);
            assert(escaped(a).len() > 0);
        }
        if b.len() > 0 {
            lemma_escaped_front(b);
            assert(escaped(b).len() > 0);
        }
        assert(a =~= b);
    } else {
        lemma_escaped_front(a);
        lemma_escaped_front(b);
        let ea = escaped_char(a[0]);
        let eb = escaped_char(b[0]);
        let ra = escaped(a.drop_first());
        let rb = escaped(b.drop_first());
        assert((ea + ra)[0] == ea[0] && (eb + rb)[0] == eb[0]);
        if ea.len() > 1 {
            assert((ea + ra)[1] == ea[1]);
        }
        if eb.len() > 1 {
            assert((eb + rb)[1] == eb[1]);
        }
        assert(a[0] == b[0]);
        assert(ra =~= (ea + ra).skip(ea.len() as int));
        assert(rb =~= (eb + rb).skip(eb.len() as int));
        law_escaping_is_injective(a.drop_first(), b.drop_first());
        assert(a =~= seq![a[0]] + a.drop_first());
        assert(b =~= seq![b[0]] + b.drop_first());
    }
}

/// No data is marked as an error, never shown as an empty sky.
pub proof fn law_no_data_is_visible(bar: Bar, resp: NearestResponse, range_nm: Number)
    requires
        resp.health == Health::NoData,
        is_bar_of(bar, resp, range_nm),
    ensures
        bar.class@ == "error"@,
        bar.text@.len() > 0,
        !bar.is_empty(),
{
    reveal_strlit("✈ ?");
    reveal_strlit("");
    lemma_escaped_front("✈ ?"@);
}

/// An empty sky, or a flight beyond the display range or without a distance, leaves the bar
/// empty.
pub proof fn law_quiet_sky_collapses(bar: Bar, resp: NearestResponse, range_nm: Number)
    requires
        resp.health != Health::NoData,
        is_bar_of(bar, resp, range_nm),
        resp.flight is None || range_nm.below(resp.flight->0.distance_nm)
            || resp.flight->0.distance_nm.nan(),
    ensures
        bar.is_empty(),
{
}

/// A lost flight within range is still shown, marked as lost unless the whole picture is stale.
pub proof fn law_lost_flight_is_badged_not_dropped(bar: Bar, resp: NearestResponse, range_nm: Number)
    requires
        shows(resp, range_nm),
        resp.flight->0.state != ContactState::InContact,
        is_bar_of(bar, resp, range_nm),
    ensures
        bar.text@ == escaped(line_text(resp.flight->0)),
        bar.class@ == (if resp.health == Health::Stale {
            "stale"@
        } else {
            "lost"@
        }),
{
}

/// The frozen approach of a lost flight is never shown as a live one, and its last known data
/// stands under a warning.
pub proof fn law_lost_flight_shows_no_approach(
    f: Flight,
    health: Health,
    snapshot_age_s: Option<Number>,
)
    requires
        f.state != ContactState::InContact,
    ensures
        approach_line(f) is None,
        freshness_line(f, health, snapshot_age_s) is None,
        display::banner_text(f) is Some,
        tooltip_lines(f, health, snapshot_age_s)[0] == display::banner_text(f)->0,
{
}

} // verus!
