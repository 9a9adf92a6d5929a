//! What holds of everything that the status bar shows.

use crate::api::{ContactState, Flight, Health, NearestResponse, VerticalTrend};
use crate::decimal;
use crate::display;
use crate::number::{self, Number};
use crate::text;
use crate::waybar::bar::{self, Bar};
use vstd::prelude::*;

verus! {

/// Only the three metacharacters of the markup are escaped, each by its own name.
pub proof fn law_only_metacharacters_are_escaped(c: char, s: Seq<char>)
    ensures
        bar::escaped(s.push(c)) == bar::escaped(s) + bar::escaped_char(c),
        bar::escaped(Seq::empty()).len() == 0,
        c != '&' && c != '<' && c != '>' ==> bar::escaped_char(c) == seq![c],
        bar::escaped_char('&') == "&amp;"@,
        bar::escaped_char('<') == "&lt;"@,
        bar::escaped_char('>') == "&gt;"@,
{
    assert(s.push(c).drop_last() =~= s);
}

/// A text without metacharacters is shown as it is.
pub proof fn law_plain_text_is_shown_as_it_is(s: Seq<char>)
    requires
        forall|i: int|
            0 <= i < s.len() ==> (#[trigger] s[i]) != '&' && s[i] != '<' && s[i] != '>',
    ensures
        bar::escaped(s) == s,
    decreases s.len(),
{
    if s.len() > 0 {
        let t = s.drop_last();
        assert forall|i: int| 0 <= i < t.len() implies (#[trigger] t[i]) != '&' && t[i] != '<'
            && t[i] != '>' by {
            assert(t[i] == s[i]);
        }
        law_plain_text_is_shown_as_it_is(t);
        assert(s.last() == s[s.len() - 1]);
        assert(bar::escaped(s) =~= s);
    } else {
        assert(bar::escaped(s) =~= s);
    }
}

/// A stale picture is marked as stale whatever the flight; in a fresh one a flight that is no
/// longer heard is marked as lost, and one that is heard not at all.
pub proof fn law_class_marks_stale_before_lost(health: Health, state: ContactState)
    ensures
        bar::class_text(Health::Stale, state) == "stale"@,
        health != Health::Stale && state != ContactState::InContact ==> bar::class_text(
            health,
            state,
        ) == "lost"@,
        health != Health::Stale ==> bar::class_text(health, ContactState::InContact) == ""@,
{
}

/// The line: label, type where known, distance, bearing, altitude where known, and the trend's
/// glyph where there is a trend.
pub proof fn law_line_has_its_fields(f: Flight)
    ensures
        ({
            let front = "✈ "@ + display::label_text(f.ident, f.hex) + (if f.aircraft_type is Some {
                " "@ + f.aircraft_type->0@
            } else {
                ""@
            }) + " "@ + decimal::fixed_text(f.distance_nm, 1) + "nm "@ + decimal::degrees_text(
                f.bearing_deg,
            ) + "°"@;
            let altitude = if f.altitude_ft is Some {
                " "@ + decimal::fixed_text(f.altitude_ft->0, 0) + "ft"@
            } else {
                ""@
            };
            &&& f.vertical_trend == VerticalTrend::Unknown ==> bar::line_text(f) == front
                + altitude + ""@
            &&& f.vertical_trend == VerticalTrend::Climb ==> bar::line_text(f) == front + altitude
                + (" "@ + "↑"@)
            &&& f.vertical_trend == VerticalTrend::Descend ==> bar::line_text(f) == front
                + altitude + (" "@ + "↓"@)
            &&& f.vertical_trend == VerticalTrend::Level ==> bar::line_text(f) == front + altitude
                + (" "@ + "–"@)
        }),
{
}

/// Behind the label stand the type and the model, each where it is known.
pub proof fn law_kind_names_type_and_model(f: Flight)
    ensures
        f.aircraft_type is Some && f.model is Some ==> bar::kind_text(f) == " · "@
            + f.aircraft_type->0@ + " "@ + f.model->0@,
        f.aircraft_type is Some && f.model is None ==> bar::kind_text(f) == " · "@
            + f.aircraft_type->0@,
        f.aircraft_type is None && f.model is Some ==> bar::kind_text(f) == " · "@ + f.model->0@,
        f.aircraft_type is None && f.model is None ==> bar::kind_text(f) == ""@,
{
}

/// The altitude carries the trend's glyph where there is a trend, and is a dash where it is not
/// known.
pub proof fn law_altitude_carries_the_trend(f: Flight)
    ensures
        f.altitude_ft is None ==> bar::altitude_text(f) == "—"@,
        f.altitude_ft is Some && f.vertical_trend == VerticalTrend::Unknown ==> bar::altitude_text(
            f,
        ) == decimal::fixed_text(f.altitude_ft->0, 0) + " ft"@,
        f.altitude_ft is Some && f.vertical_trend == VerticalTrend::Climb ==> bar::altitude_text(f)
            == decimal::fixed_text(f.altitude_ft->0, 0) + " ft "@ + "↑"@,
        f.altitude_ft is Some && f.vertical_trend == VerticalTrend::Descend ==> bar::altitude_text(
            f,
        ) == decimal::fixed_text(f.altitude_ft->0, 0) + " ft "@ + "↓"@,
        f.altitude_ft is Some && f.vertical_trend == VerticalTrend::Level ==> bar::altitude_text(f)
            == decimal::fixed_text(f.altitude_ft->0, 0) + " ft "@ + "–"@,
{
}

/// A closest pass is shown exactly where the flight is in contact and the pass is not yet
/// behind: how close, then how soon.
pub proof fn law_pass_is_shown_while_it_is_ahead(f: Flight)
    requires
        f.cpa is Some ==> f.cpa->0.time_to_cpa_s.finite(),
    ensures
        bar::approach_line(f) is Some <==> f.state == ContactState::InContact && f.cpa is Some
            && f.cpa->0.time_to_cpa_s.units() >= 0,
        bar::approach_line(f) is Some ==> bar::approach_line(f)->0 == "CPA "@
            + decimal::fixed_text(f.cpa->0.cpa_distance_nm, 1) + " nm in "@ + decimal::fixed_text(
            f.cpa->0.time_to_cpa_s,
            0,
        ) + "s"@,
{
    assert(0 * number::one() == 0) by (nonlinear_arith);
}

/// How old the data is: of a flight in contact, the age of its report, or that the picture is
/// stale and by how much; a lost one has it in its warning.
pub proof fn law_age_of_what_is_shown(f: Flight, health: Health, snapshot_age_s: Option<Number>)
    ensures
        f.state != ContactState::InContact ==> bar::freshness_line(f, health, snapshot_age_s)
            is None,
        f.state == ContactState::InContact && health != Health::Stale ==> bar::freshness_line(
            f,
            health,
            snapshot_age_s,
        ) == Some("updated "@ + decimal::fixed_text(f.age_s, 0) + "s ago"@),
        f.state == ContactState::InContact && snapshot_age_s is Some ==> bar::freshness_line(
            f,
            Health::Stale,
            snapshot_age_s,
        ) == Some("stale — snapshot "@ + decimal::fixed_text(snapshot_age_s->0, 0) + "s old"@),
        f.state == ContactState::InContact && snapshot_age_s is None ==> bar::freshness_line(
            f,
            Health::Stale,
            snapshot_age_s,
        ) == Some("stale"@),
{
}

/// Whether a line stands among the lines of the tooltip.
pub open spec fn has_line(
    f: Flight,
    health: Health,
    snapshot_age_s: Option<Number>,
    line: Seq<char>,
) -> bool {
    bar::tooltip_lines(f, health, snapshot_age_s).contains(line)
}

/// One for a line that is there.
pub open spec fn one_if(there: bool) -> int {
    if there {
        1
    } else {
        0
    }
}

/// The tooltip always says who the flight is, where it is, and its altitude, speed, track and
/// vertical rate, with a dash for what is not known.
#[verifier::rlimit(60)]
pub proof fn law_tooltip_says_where_and_how(
    f: Flight,
    health: Health,
    snapshot_age_s: Option<Number>,
)
    ensures
        has_line(
            f,
            health,
            snapshot_age_s,
            display::label_text(f.ident, f.hex) + bar::kind_text(f),
        ),
        has_line(
            f,
            health,
            snapshot_age_s,
            decimal::fixed_text(f.distance_nm, 1) + " nm @ "@ + decimal::degrees_text(
                f.bearing_deg,
            ) + "°"@,
        ),
        has_line(f, health, snapshot_age_s, "Alt "@ + bar::altitude_text(f)),
        f.groundspeed_kt is Some ==> has_line(
            f,
            health,
            snapshot_age_s,
            "Spd "@ + (decimal::fixed_text(f.groundspeed_kt->0, 0) + " kt"@),
        ),
        f.groundspeed_kt is None ==> has_line(f, health, snapshot_age_s, "Spd "@ + "—"@),
        f.track_deg is Some ==> has_line(
            f,
            health,
            snapshot_age_s,
            "Trk "@ + (decimal::degrees_text(f.track_deg->0) + "°"@),
        ),
        f.track_deg is None ==> has_line(f, health, snapshot_age_s, "Trk "@ + "—"@),
        f.vertical_rate_fpm is Some ==> has_line(
            f,
            health,
            snapshot_age_s,
            "Vr "@ + (decimal::signed_text(f.vertical_rate_fpm->0, 0) + " fpm"@),
        ),
        f.vertical_rate_fpm is None ==> has_line(f, health, snapshot_age_s, "Vr "@ + "—"@),
{
    let all = bar::tooltip_lines(f, health, snapshot_age_s);
    let a = one_if(f.state != ContactState::InContact);
    let b = a + 1 + one_if(f.operator is Some) + one_if(f.registration is Some);
    assert(all[a] == display::label_text(f.ident, f.hex) + bar::kind_text(f));
    assert(all[b] == decimal::fixed_text(f.distance_nm, 1) + " nm @ "@ + decimal::degrees_text(
        f.bearing_deg,
    ) + "°"@);
    assert(all[b + 1] == "Alt "@ + bar::altitude_text(f));
    assert(all[b + 2] == "Spd "@ + display::or_dash(f.groundspeed_kt, 0, " kt"@));
    assert(all[b + 3] == "Trk "@ + (match f.track_deg {
        Some(t) => decimal::degrees_text(t) + "°"@,
        None => "—"@,
    }));
    assert(all[b + 4] == "Vr "@ + (match f.vertical_rate_fpm {
        Some(r) => decimal::signed_text(r, 0) + " fpm"@,
        None => "—"@,
    }));
}

/// The tooltip names the operator and the registration, shows the pass ahead, and says how old
/// the data is, each where there is such a thing; it has no other lines.
#[verifier::rlimit(60)]
pub proof fn law_tooltip_has_no_empty_lines(
    f: Flight,
    health: Health,
    snapshot_age_s: Option<Number>,
)
    ensures
        ({
            let all = bar::tooltip_lines(f, health, snapshot_age_s);
            &&& all.len() == 6 + one_if(f.state != ContactState::InContact) + one_if(
                f.operator is Some,
            ) + one_if(f.registration is Some) + one_if(bar::approach_line(f) is Some) + one_if(
                f.state == ContactState::InContact,
            )
            &&& f.state != ContactState::InContact ==> Some(all[0]) == display::banner_text(f)
            &&& f.state == ContactState::InContact ==> Some(all.last()) == bar::freshness_line(
                f,
                health,
                snapshot_age_s,
            )
            &&& f.operator is Some ==> all.contains(f.operator->0@)
            &&& f.registration is Some ==> all.contains("Reg "@ + f.registration->0@)
            &&& bar::approach_line(f) is Some ==> all.contains(bar::approach_line(f)->0)
        }),
{
    let all = bar::tooltip_lines(f, health, snapshot_age_s);
    let a = one_if(f.state != ContactState::InContact);
    let b = a + 1 + one_if(f.operator is Some) + one_if(f.registration is Some);
    if f.operator is Some {
        assert(all[a + 1] == f.operator->0@);
    }
    if f.registration is Some {
        assert(all[a + 1 + one_if(f.operator is Some)] == "Reg "@ + f.registration->0@);
    }
    if bar::approach_line(f) is Some {
        assert(all[b + 5] == bar::approach_line(f)->0);
    }
}

/// A flight is shown exactly where there is data, and it is no farther away than the display
/// range.
pub proof fn law_shown_within_the_range(resp: NearestResponse, range_nm: Number)
    requires
        range_nm.finite(),
        resp.flight is Some ==> resp.flight->0.distance_nm.finite(),
    ensures
        bar::shows(resp, range_nm) <==> resp.health != Health::NoData && resp.flight is Some
            && resp.flight->0.distance_nm.units() <= range_nm.units(),
{
    if resp.flight is Some {
        number::law_comparing_is_by_value(resp.flight->0.distance_nm, range_nm);
    }
}

/// What is shown of a flight within range is its line, its tooltip and its class, escaped for
/// the markup; with nothing to show all three are empty, and without data the reason is the
/// tooltip.
pub proof fn law_bar_shows_the_nearest(b: Bar, resp: NearestResponse, range_nm: Number)
    requires
        bar::is_bar_of(b, resp, range_nm),
    ensures
        bar::shows(resp, range_nm) ==> b.text@ == bar::escaped(bar::line_text(resp.flight->0))
            && b.tooltip@ == bar::escaped(
            text::joined(
                bar::tooltip_lines(resp.flight->0, resp.health, resp.snapshot_age_s),
                "\n"@,
            ),
        ) && b.class@ == bar::class_text(resp.health, resp.flight->0.state),
        !bar::shows(resp, range_nm) && resp.health != Health::NoData ==> b.text@.len() == 0
            && b.tooltip@.len() == 0 && b.class@.len() == 0,
        resp.health == Health::NoData ==> b.text@ == bar::escaped("✈ ?"@) && b.class@ == "error"@
            && b.tooltip@ == bar::escaped("no data yet — flights-server has no Snapshot"@),
{
    reveal_strlit("");
}

/// A mark of an error shows why, and looks like no flight.
pub proof fn law_error_mark(b: Bar, why: Seq<char>)
    requires
        b.is_error(why),
    ensures
        b.text@ == bar::escaped("✈ ?"@),
        b.tooltip@ == bar::escaped(why),
        b.class@ == "error"@,
{
}

} // verus!
