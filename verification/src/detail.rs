//! Everything there is to show of one flight, in the order it is shown.

use crate::api::{self, DetailGroup, Flight, FlightDetail, VerticalTrend};
use crate::decimal;
use crate::display;
use crate::number::Number;
use crate::text;
use vstd::prelude::*;

verus! {

/// What an entry is.
#[derive(Clone, Copy, Debug, PartialEq, Eq, Structural)]
pub enum EntryKind {
    /// The flight's label.
    Header,
    /// The title of the entries that follow.
    Section,
    /// A labelled value.
    Field,
}

/// An entry of the detail view. A header and a section have a label alone.
#[derive(Debug)]
pub struct Entry {
    pub kind: EntryKind,
    pub label: String,
    pub value: String,
}

/// What an entry shows.
pub type EntryView = (EntryKind, Seq<char>, Seq<char>);

impl View for Entry {
    type V = EntryView;

    open spec fn view(&self) -> EntryView {
        (self.kind, self.label@, self.value@)
    }
}

/// What entries show.
pub open spec fn entries_view(entries: Seq<Entry>) -> Seq<EntryView> {
    Seq::new(entries.len(), |i: int| entries[i]@)
}

pub open spec fn header(label: Seq<char>) -> Seq<EntryView> {
    seq![(EntryKind::Header, label, ""@)]
}

pub open spec fn section(title: Seq<char>) -> Seq<EntryView> {
    seq![(EntryKind::Section, title, ""@)]
}

/// A labelled value where there is one.
pub open spec fn field(label: Seq<char>, value: Option<Seq<char>>) -> Seq<EntryView> {
    match value {
        Some(v) => seq![(EntryKind::Field, label, v)],
        None => Seq::empty(),
    }
}

/// A number with decimals and a unit.
pub open spec fn measure(v: Option<Number>, unit: Seq<char>) -> Option<Seq<char>> {
    match v {
        Some(x) => Some(decimal::fixed_text(x, 0) + unit),
        None => None,
    }
}

/// Type and model.
pub open spec fn kind(f: Flight) -> Option<Seq<char>> {
    match (f.aircraft_type, f.model) {
        (Some(t), Some(m)) => Some(t@ + " · "@ + m@),
        (Some(t), None) => Some(t@),
        (None, Some(m)) => Some(m@),
        (None, None) => None,
    }
}

/// The vertical rate with its glyph.
pub open spec fn rate(f: Flight) -> Option<Seq<char>> {
    match f.vertical_rate_fpm {
        Some(r) => Some(
            decimal::signed_text(r, 0) + " fpm "@ + display::glyph_text(f.vertical_trend),
        ),
        None => None,
    }
}

/// The trend's glyph where it is all that is known of the vertical rate.
pub open spec fn bare_trend(f: Flight) -> Option<Seq<char>> {
    if f.vertical_rate_fpm is None && f.vertical_trend != VerticalTrend::Unknown {
        Some(display::glyph_text(f.vertical_trend))
    } else {
        None
    }
}

/// Who the flight is.
pub open spec fn identity(f: Flight) -> Seq<EntryView> {
    header(display::label_text(f.ident, f.hex)) + field(
        "Registration"@,
        text::opt(f.registration),
    ) + field("Operator"@, text::opt(f.operator)) + field("Type"@, kind(f)) + field(
        "Category"@,
        text::opt(f.emitter_category),
    )
}

/// Where the flight is and how it moves; `with_trend` shows a trend that has no rate.
pub open spec fn motion(f: Flight, with_trend: bool) -> Seq<EntryView> {
    section("Position & motion"@) + field(
        "Distance"@,
        Some(decimal::fixed_text(f.distance_nm, 1) + " nm"@),
    ) + field("Bearing"@, Some(decimal::degrees_text(f.bearing_deg) + "°"@)) + field(
        "Baro alt"@,
        measure(f.altitude_ft, " ft"@),
    ) + field("Geo alt"@, measure(f.geometric_altitude_ft, " ft"@)) + field(
        "Vertical rate"@,
        rate(f),
    ) + (if with_trend {
        field("Vertical trend"@, bare_trend(f))
    } else {
        Seq::empty()
    }) + field("Groundspeed"@, measure(f.groundspeed_kt, " kt"@)) + field(
        "Track"@,
        match f.track_deg {
            Some(t) => Some(decimal::degrees_text(t) + "°"@),
            None => None,
        },
    ) + field(
        "Position"@,
        Some(decimal::fixed_text(f.lat, 4) + ", "@ + decimal::fixed_text(f.lon, 4)),
    ) + field("Position age"@, Some(decimal::fixed_text(f.age_s, 0) + "s"@))
}

/// What the transponder says, where it says anything.
pub open spec fn transponder(f: Flight) -> Seq<EntryView> {
    if f.squawk is Some || f.emergency is Some {
        section("Transponder"@) + field("Squawk"@, text::opt(f.squawk)) + field(
            "Emergency"@,
            text::opt(f.emergency),
        )
    } else {
        Seq::empty()
    }
}

/// The labelled values of a section, as they came.
pub open spec fn fields_of(fields: Seq<(Seq<char>, Seq<char>)>) -> Seq<EntryView> {
    Seq::new(fields.len(), |i: int| (EntryKind::Field, fields[i].0, fields[i].1))
}

/// The server's own sections, as they came.
pub open spec fn groups_of(groups: Seq<(Seq<char>, Seq<(Seq<char>, Seq<char>)>)>, n: nat) -> Seq<
    EntryView,
>
    decreases n,
{
    if n == 0 {
        Seq::empty()
    } else {
        groups_of(groups, (n - 1) as nat) + section(groups[n - 1].0) + fields_of(groups[n - 1].1)
    }
}

/// Everything there is to show of a flight.
pub open spec fn everything(d: FlightDetail, with_trend: bool) -> Seq<EntryView> {
    identity(d.flight) + motion(d.flight, with_trend) + transponder(d.flight) + groups_of(
        api::groups_text(d.details@),
        d.details@.len(),
    )
}

fn push(entries: &mut Vec<Entry>, kind: EntryKind, label: &str, value: String)
    ensures
        entries_view(final(entries)@) == entries_view(old(entries)@) + seq![
            (kind, label@, value@),
        ],
{
    let ghost before = entries_view(entries@);
    entries.push(Entry { kind, label: label.to_owned(), value });
    assert(entries_view(entries@) =~= before + seq![(kind, label@, value@)]);
}

fn append(entries: &mut Vec<Entry>, more: &mut Vec<Entry>)
    ensures
        entries_view(final(entries)@) == entries_view(old(entries)@) + entries_view(old(more)@),
{
    let ghost before = entries@;
    let ghost added = more@;
    entries.append(more);
    assert(entries_view(entries@) =~= entries_view(before) + entries_view(added));
}

fn push_section(entries: &mut Vec<Entry>, title: &str)
    ensures
        entries_view(final(entries)@) == entries_view(old(entries)@) + section(title@),
{
    push(entries, EntryKind::Section, title, "".to_owned());
}

fn push_field(entries: &mut Vec<Entry>, label: &str, value: Option<String>)
    ensures
        entries_view(final(entries)@) == entries_view(old(entries)@) + field(
            label@,
            text::opt(value),
        ),
{
    let ghost before = entries_view(entries@);
    match value {
        Some(v) => push(entries, EntryKind::Field, label, v),
        None => {},
    }
    assert(entries_view(entries@) =~= before + field(label@, text::opt(value)));
}

fn show_measure(v: &Option<Number>, unit: &str) -> (r: Option<String>)
    ensures
        text::opt(r) == measure(*v, unit@),
{
    match v {
        Some(x) => Some(text::concat(decimal::fixed(x, 0).as_str(), unit)),
        None => None,
    }
}

fn show_kind(f: &Flight) -> (r: Option<String>)
    ensures
        text::opt(r) == kind(*f),
{
    match (&f.aircraft_type, &f.model) {
        (Some(t), Some(m)) => Some(text::concat3(t.as_str(), " · ", m.as_str())),
        (Some(t), None) => Some(t.clone()),
        (None, Some(m)) => Some(m.clone()),
        (None, None) => None,
    }
}

fn identity_entries(f: &Flight) -> (r: Vec<Entry>)
    ensures
        entries_view(r@) == identity(*f),
{
    let mut entries: Vec<Entry> = Vec::new();
    assert(entries_view(entries@) =~= Seq::empty());
    push(&mut entries, EntryKind::Header, display::label(f).as_str(), "".to_owned());
    push_field(&mut entries, "Registration", f.registration.clone());
    push_field(&mut entries, "Operator", f.operator.clone());
    push_field(&mut entries, "Type", show_kind(f));
    push_field(&mut entries, "Category", f.emitter_category.clone());
    entries
}

fn motion_entries(f: &Flight, with_trend: bool) -> (r: Vec<Entry>)
    ensures
        entries_view(r@) == motion(*f, with_trend),
{
    let mut entries: Vec<Entry> = Vec::new();
    assert(entries_view(entries@) =~= Seq::empty());
    push_section(&mut entries, "Position & motion");
    push_field(
        &mut entries,
        "Distance",
        Some(text::concat(decimal::fixed(&f.distance_nm, 1).as_str(), " nm")),
    );
    push_field(
        &mut entries,
        "Bearing",
        Some(text::concat(decimal::degrees(&f.bearing_deg).as_str(), "°")),
    );
    push_field(&mut entries, "Baro alt", show_measure(&f.altitude_ft, " ft"));
    push_field(&mut entries, "Geo alt", show_measure(&f.geometric_altitude_ft, " ft"));
    let rate = match &f.vertical_rate_fpm {
        Some(r) => Some(
            text::concat3(
                decimal::signed(r, 0).as_str(),
                " fpm ",
                display::trend_glyph(f.vertical_trend),
            ),
        ),
        None => None,
    };
    push_field(&mut entries, "Vertical rate", rate);
    if with_trend {
        let trend = if f.vertical_rate_fpm.is_none() && f.vertical_trend
            != VerticalTrend::Unknown {
            Some(display::trend_glyph(f.vertical_trend).to_owned())
        } else {
            None
        };
        push_field(&mut entries, "Vertical trend", trend);
    }
    push_field(&mut entries, "Groundspeed", show_measure(&f.groundspeed_kt, " kt"));
    let track = match &f.track_deg {
        Some(t) => Some(text::concat(decimal::degrees(t).as_str(), "°")),
        None => None,
    };
    push_field(&mut entries, "Track", track);
    push_field(
        &mut entries,
        "Position",
        Some(
            text::concat3(
                decimal::fixed(&f.lat, 4).as_str(),
                ", ",
                decimal::fixed(&f.lon, 4).as_str(),
            ),
        ),
    );
    push_field(
        &mut entries,
        "Position age",
        Some(text::concat(decimal::fixed(&f.age_s, 0).as_str(), "s")),
    );
    entries
}

fn transponder_entries(f: &Flight) -> (r: Vec<Entry>)
    ensures
        entries_view(r@) == transponder(*f),
{
    let mut entries: Vec<Entry> = Vec::new();
    assert(entries_view(entries@) =~= Seq::empty());
    if f.squawk.is_some() || f.emergency.is_some() {
        push_section(&mut entries, "Transponder");
        push_field(&mut entries, "Squawk", f.squawk.clone());
        push_field(&mut entries, "Emergency", f.emergency.clone());
    }
    entries
}

fn push_group(entries: &mut Vec<Entry>, group: &DetailGroup)
    ensures
        entries_view(final(entries)@) == entries_view(old(entries)@) + section(group@.0)
            + fields_of(group@.1),
{
    push_section(entries, group.title.as_str());
    let ghost before = entries_view(entries@);
    let ghost fields = group@.1;
    let mut i: usize = 0;
    assert(before + fields_of(fields).take(0) =~= before);
    while i < group.fields.len()
        invariant
            i <= group.fields.len(),
            fields == api::fields_text(group.fields@),
            entries_view(entries@) == before + fields_of(fields).take(i as int),
        decreases group.fields.len() - i,
    {
        let one = &group.fields[i];
        push(entries, EntryKind::Field, one.label.as_str(), one.value.clone());
        assert(before + fields_of(fields).take(i + 1) =~= before + fields_of(fields).take(
            i as int,
        ) + seq![(EntryKind::Field, one.label@, one.value@)]);
        i = i + 1;
    }
    assert(fields_of(fields).take(fields.len() as int) =~= fields_of(fields));
}

/// Everything there is to show of a flight; `with_trend` shows a trend that has no rate.
pub fn entries(d: &FlightDetail, with_trend: bool) -> (r: Vec<Entry>)
    ensures
        entries_view(r@) == everything(*d, with_trend),
{
    let mut entries: Vec<Entry> = Vec::new();
    assert(entries_view(entries@) =~= Seq::empty());
    let mut part = identity_entries(&d.flight);
    append(&mut entries, &mut part);
    let mut part = motion_entries(&d.flight, with_trend);
    append(&mut entries, &mut part);
    let mut part = transponder_entries(&d.flight);
    append(&mut entries, &mut part);
    let ghost before = entries_view(entries@);
    assert(before =~= identity(d.flight) + motion(d.flight, with_trend) + transponder(d.flight));
    let ghost groups = api::groups_text(d.details@);
    let mut i: usize = 0;
    assert(before + groups_of(groups, 0) =~= before);
    while i < d.details.len()
        invariant
            i <= d.details.len(),
            groups == api::groups_text(d.details@),
            entries_view(entries@) == before + groups_of(groups, i as nat),
        decreases d.details.len() - i,
    {
        push_group(&mut entries, &d.details[i]);
        assert(groups[i as int] == d.details@[i as int]@);
        assert(before + groups_of(groups, (i + 1) as nat) =~= before + groups_of(groups, i as nat)
            + section(groups[i as int].0) + fields_of(groups[i as int].1));
        i = i + 1;
    }
    entries
}

/// The server's own sections are shown as they came: every labelled value of every section
/// stands in the detail view.
pub proof fn law_server_fields_are_shown(d: FlightDetail, with_trend: bool, g: int, i: int)
    requires
        0 <= g < d.details@.len(),
        0 <= i < d.details@[g].fields@.len(),
    ensures
        everything(d, with_trend).contains(
            (EntryKind::Field, d.details@[g].fields@[i].label@, d.details@[g].fields@[i].value@),
        ),
{
    let groups = api::groups_text(d.details@);
    lemma_group_field(groups, d.details@.len(), g, i);
    let wanted = (
        EntryKind::Field,
        d.details@[g].fields@[i].label@,
        d.details@[g].fields@[i].value@,
    );
    let tail = groups_of(groups, d.details@.len());
    let front = identity(d.flight) + motion(d.flight, with_trend) + transponder(d.flight);
    let k = choose|k: int| 0 <= k < tail.len() && tail[k] == wanted;
    assert((front + tail)[front.len() + k] == wanted);
}

proof fn lemma_group_field(
    groups: Seq<(Seq<char>, Seq<(Seq<char>, Seq<char>)>)>,
    n: nat,
    g: int,
    i: int,
)
    requires
        0 <= g < n <= groups.len(),
        0 <= i < groups[g].1.len(),
    ensures
        groups_of(groups, n).contains((EntryKind::Field, groups[g].1[i].0, groups[g].1[i].1)),
    decreases n,
{
    let m = (n - 1) as nat;
    let before = groups_of(groups, m);
    let all = groups_of(groups, n);
    let wanted = (EntryKind::Field, groups[g].1[i].0, groups[g].1[i].1);
    if g == m {
        assert(all[before.len() + 1 + i] == wanted);
    } else {
        lemma_group_field(groups, m, g, i);
        let k = choose|k: int| 0 <= k < before.len() && before[k] == wanted;
        assert(all[k] == wanted);
    }
}

/// The labels of a section's entries that have a value, and the values, in their order.
pub open spec fn given(pairs: Seq<(Seq<char>, Option<Seq<char>>)>, n: nat) -> Seq<EntryView>
    decreases n,
{
    if n == 0 {
        Seq::empty()
    } else {
        let before = given(pairs, (n - 1) as nat);
        match pairs[n - 1].1 {
            Some(v) => before.push((EntryKind::Field, pairs[n - 1].0, v)),
            None => before,
        }
    }
}

/// A flight is headed by its label; under it stand its registration, operator, type with model,
/// and category, each where it is known.
pub proof fn law_identity_entries(f: Flight)
    ensures
        identity(f)[0] == (EntryKind::Header, display::label_text(f.ident, f.hex), ""@),
        f.registration is Some ==> identity(f).contains(
            (EntryKind::Field, "Registration"@, f.registration->0@),
        ),
        f.operator is Some ==> identity(f).contains(
            (EntryKind::Field, "Operator"@, f.operator->0@),
        ),
        f.aircraft_type is Some && f.model is Some ==> identity(f).contains(
            (EntryKind::Field, "Type"@, f.aircraft_type->0@ + " · "@ + f.model->0@),
        ),
        f.aircraft_type is Some && f.model is None ==> identity(f).contains(
            (EntryKind::Field, "Type"@, f.aircraft_type->0@),
        ),
        f.aircraft_type is None && f.model is Some ==> identity(f).contains(
            (EntryKind::Field, "Type"@, f.model->0@),
        ),
        f.emitter_category is Some ==> identity(f).contains(
            (EntryKind::Field, "Category"@, f.emitter_category->0@),
        ),
        identity(f).len() == 1 + there(f.registration is Some) + there(f.operator is Some) + there(
            f.aircraft_type is Some || f.model is Some,
        ) + there(f.emitter_category is Some),
{
    let all = identity(f);
    let a: int = 1 + there(f.registration is Some);
    let b: int = a + there(f.operator is Some);
    let c: int = b + there(f.aircraft_type is Some || f.model is Some);
    if f.registration is Some {
        assert(all[1] == (EntryKind::Field, "Registration"@, f.registration->0@));
    }
    if f.operator is Some {
        assert(all[a] == (EntryKind::Field, "Operator"@, f.operator->0@));
    }
    if kind(f) is Some {
        assert(all[b] == (EntryKind::Field, "Type"@, kind(f)->0));
    }
    if f.emitter_category is Some {
        assert(all[c] == (EntryKind::Field, "Category"@, f.emitter_category->0@));
    }
}

/// One for what is there.
pub open spec fn there(b: bool) -> int {
    if b {
        1
    } else {
        0
    }
}

/// Where a flight is and how it moves: each label with its value, where that is known.
pub open spec fn motion_pairs(f: Flight) -> Seq<(Seq<char>, Option<Seq<char>>)> {
    seq![
        ("Distance"@, Some(decimal::fixed_text(f.distance_nm, 1) + " nm"@)),
        ("Bearing"@, Some(decimal::degrees_text(f.bearing_deg) + "°"@)),
        ("Baro alt"@, with_unit(f.altitude_ft, " ft"@)),
        ("Geo alt"@, with_unit(f.geometric_altitude_ft, " ft"@)),
        (
            "Vertical rate"@,
            if f.vertical_rate_fpm is Some {
                Some(
                    decimal::signed_text(f.vertical_rate_fpm->0, 0) + " fpm "@
                        + display::glyph_text(f.vertical_trend),
                )
            } else {
                None
            },
        ),
        ("Groundspeed"@, with_unit(f.groundspeed_kt, " kt"@)),
        (
            "Track"@,
            if f.track_deg is Some {
                Some(decimal::degrees_text(f.track_deg->0) + "°"@)
            } else {
                None
            },
        ),
        ("Position"@, Some(decimal::fixed_text(f.lat, 4) + ", "@ + decimal::fixed_text(f.lon, 4))),
        ("Position age"@, Some(decimal::fixed_text(f.age_s, 0) + "s"@)),
    ]
}

/// Where a flight is and how it moves: every value under its own label, in its own unit, and
/// those that are not known left out.
pub proof fn law_motion_entries(f: Flight)
    ensures
        motion(f, false) == seq![(EntryKind::Section, "Position & motion"@, ""@)] + given(
            motion_pairs(f),
            9,
        ),
{
    let head = seq![(EntryKind::Section, "Position & motion"@, ""@)];
    let pairs = motion_pairs(f);
    let s = section("Position & motion"@);
    assert(s =~= head);
    let p0 = s + field(pairs[0].0, pairs[0].1);
    let p1 = p0 + field(pairs[1].0, pairs[1].1);
    let p2 = p1 + field(pairs[2].0, pairs[2].1);
    let p3 = p2 + field(pairs[3].0, pairs[3].1);
    let p4 = p3 + field(pairs[4].0, pairs[4].1);
    let p5 = p4 + field(pairs[5].0, pairs[5].1);
    let p6 = p5 + field(pairs[6].0, pairs[6].1);
    let p7 = p6 + field(pairs[7].0, pairs[7].1);
    let p8 = p7 + field(pairs[8].0, pairs[8].1);
    assert(p4 + Seq::<EntryView>::empty() =~= p4);
    assert(motion(f, false) == p8);
    lemma_given_step(head, pairs, 1);
    lemma_given_step(head, pairs, 2);
    lemma_given_step(head, pairs, 3);
    lemma_given_step(head, pairs, 4);
    lemma_given_step(head, pairs, 5);
    lemma_given_step(head, pairs, 6);
    lemma_given_step(head, pairs, 7);
    lemma_given_step(head, pairs, 8);
    lemma_given_step(head, pairs, 9);
    assert(head + given(pairs, 0) =~= head);
    assert(p8 == head + given(pairs, 9));
}

proof fn lemma_given_step(
    head: Seq<EntryView>,
    pairs: Seq<(Seq<char>, Option<Seq<char>>)>,
    n: nat,
)
    requires
        n > 0,
    ensures
        head + given(pairs, n) == head + given(pairs, (n - 1) as nat) + field(
            pairs[n - 1].0,
            pairs[n - 1].1,
        ),
{
    assert(head + given(pairs, n) =~= head + given(pairs, (n - 1) as nat) + field(
        pairs[n - 1].0,
        pairs[n - 1].1,
    ));
}

/// A number without decimals and its unit.
pub open spec fn with_unit(v: Option<Number>, unit: Seq<char>) -> Option<Seq<char>> {
    if v is Some {
        Some(decimal::fixed_text(v->0, 0) + unit)
    } else {
        None
    }
}

/// Showing a bare trend adds one entry, and only where there is a trend without a rate.
pub proof fn law_bare_trend_adds_one_entry(f: Flight)
    ensures
        motion(f, true).len() == motion(f, false).len() + there(
            f.vertical_rate_fpm is None && f.vertical_trend != VerticalTrend::Unknown,
        ),
        f.vertical_rate_fpm is None && f.vertical_trend != VerticalTrend::Unknown ==> motion(
            f,
            true,
        ).contains((EntryKind::Field, "Vertical trend"@, display::glyph_text(f.vertical_trend))),
{
    let k: int = 3 + there(f.altitude_ft is Some) + there(f.geometric_altitude_ft is Some) + there(
        f.vertical_rate_fpm is Some,
    );
    if f.vertical_rate_fpm is None && f.vertical_trend != VerticalTrend::Unknown {
        assert(motion(f, true)[k] == (
            EntryKind::Field,
            "Vertical trend"@,
            display::glyph_text(f.vertical_trend),
        ));
    }
}

/// The transponder has a section where it says anything, and in it what it says.
pub proof fn law_transponder_entries(f: Flight)
    ensures
        f.squawk is None && f.emergency is None ==> transponder(f).len() == 0,
        f.squawk is Some && f.emergency is None ==> transponder(f) == seq![
            (EntryKind::Section, "Transponder"@, ""@),
            (EntryKind::Field, "Squawk"@, f.squawk->0@),
        ],
        f.squawk is None && f.emergency is Some ==> transponder(f) == seq![
            (EntryKind::Section, "Transponder"@, ""@),
            (EntryKind::Field, "Emergency"@, f.emergency->0@),
        ],
        f.squawk is Some && f.emergency is Some ==> transponder(f) == seq![
            (EntryKind::Section, "Transponder"@, ""@),
            (EntryKind::Field, "Squawk"@, f.squawk->0@),
            (EntryKind::Field, "Emergency"@, f.emergency->0@),
        ],
{
    if f.squawk is Some && f.emergency is None {
        assert(transponder(f) =~= seq![
            (EntryKind::Section, "Transponder"@, ""@),
            (EntryKind::Field, "Squawk"@, f.squawk->0@),
        ]);
    }
    if f.squawk is None && f.emergency is Some {
        assert(transponder(f) =~= seq![
            (EntryKind::Section, "Transponder"@, ""@),
            (EntryKind::Field, "Emergency"@, f.emergency->0@),
        ]);
    }
    if f.squawk is Some && f.emergency is Some {
        assert(transponder(f) =~= seq![
            (EntryKind::Section, "Transponder"@, ""@),
            (EntryKind::Field, "Squawk"@, f.squawk->0@),
            (EntryKind::Field, "Emergency"@, f.emergency->0@),
        ]);
    }
}

/// The detail view begins with who the flight is, where it is and what its transponder says, in
/// this order; the server's own sections follow, each under its title.
pub proof fn law_detail_is_in_order(d: FlightDetail, with_trend: bool)
    ensures
        ({
            let front = identity(d.flight) + motion(d.flight, with_trend) + transponder(d.flight);
            &&& everything(d, with_trend).take(front.len() as int) == front
            &&& d.details@.len() == 0 ==> everything(d, with_trend) == front
            &&& d.details@.len() > 0 ==> everything(d, with_trend).len() > front.len()
        }),
{
    let front = identity(d.flight) + motion(d.flight, with_trend) + transponder(d.flight);
    assert(everything(d, with_trend).take(front.len() as int) =~= front);
    assert(everything(d, with_trend) =~= front + groups_of(
        api::groups_text(d.details@),
        d.details@.len(),
    ));
    if d.details@.len() == 0 {
        assert(everything(d, with_trend) =~= front);
    }
}

/// Every section of the server stands under its title, with its fields right behind it.
pub proof fn law_sections_stand_under_their_titles(
    groups: Seq<(Seq<char>, Seq<(Seq<char>, Seq<char>)>)>,
    n: nat,
    g: int,
) -> (at: int)
    requires
        0 <= g < n <= groups.len(),
    ensures
        0 <= at <= at + groups[g].1.len() < groups_of(groups, n).len(),
        groups_of(groups, n)[at] == (EntryKind::Section, groups[g].0, ""@),
        forall|i: int|
            0 <= i < groups[g].1.len() ==> (#[trigger] groups_of(groups, n)[at + 1 + i]) == (
                EntryKind::Field,
                groups[g].1[i].0,
                groups[g].1[i].1,
            ),
    decreases n,
{
    let before = groups_of(groups, (n - 1) as nat);
    let all = groups_of(groups, n);
    if g == n - 1 {
        before.len() as int
    } else {
        let at = law_sections_stand_under_their_titles(groups, (n - 1) as nat, g);
        assert forall|i: int| 0 <= i < groups[g].1.len() implies (#[trigger] all[at + 1 + i]) == (
            EntryKind::Field,
            groups[g].1[i].0,
            groups[g].1[i].1,
        ) by {
            assert(all[at + 1 + i] == before[at + 1 + i]);
        }
        at
    }
}

/// An entry shows what it is, its label and its value; entries are shown in their order.
pub proof fn law_entries_show_label_and_value(entries: Seq<Entry>, i: int)
    requires
        0 <= i < entries.len(),
    ensures
        entries_view(entries).len() == entries.len(),
        entries_view(entries)[i].0 == entries[i].kind,
        entries_view(entries)[i].1 == entries[i].label@,
        entries_view(entries)[i].2 == entries[i].value@,
{
}

} // verus!
