//! What holds of every aircraft that the feed describes.

use crate::decimal;
use crate::number::{self, Number};
use crate::server::domain::{self, Flight, LatLon};
use crate::server::readsb::{self, Altitude, WireAircraft};
use crate::text;
use vstd::prelude::*;

verus! {

/// Every number of a flight is the field that the feed has for it, and no other: position,
/// altitudes, groundspeed, track, and the barometric vertical rate or else the geometric one.
pub proof fn law_numbers_are_the_feeds(w: WireAircraft, f: Flight)
    requires
        w.becomes(f),
    ensures
        f.hex@ == w.hex@,
        Some(f.position.lat) == w.lat,
        Some(f.position.lon) == w.lon,
        f.groundspeed_kt == w.gs,
        f.track_deg == w.track,
        w.baro_rate is Some ==> f.vertical_rate_fpm == w.baro_rate,
        w.baro_rate is None ==> f.vertical_rate_fpm == w.geom_rate,
        match w.alt_baro {
            Some(Altitude::Feet(ft)) => f.altitude_ft == Some(ft),
            _ => f.altitude_ft is None,
        },
        match w.alt_geom {
            Some(Altitude::Feet(ft)) => f.geometric_altitude_ft == Some(ft),
            _ => f.geometric_altitude_ft is None,
        },
{
}

/// Whether two flights show the same but for their groundspeed.
pub open spec fn same_but_groundspeed(f: Flight, g: Flight) -> bool {
    &&& f.hex@ == g.hex@
    &&& text::opt(f.ident) == text::opt(g.ident)
    &&& text::opt(f.aircraft_type) == text::opt(g.aircraft_type)
    &&& text::opt(f.model) == text::opt(g.model)
    &&& text::opt(f.registration) == text::opt(g.registration)
    &&& text::opt(f.operator) == text::opt(g.operator)
    &&& f.position == g.position
    &&& f.altitude_ft == g.altitude_ft
    &&& f.geometric_altitude_ft == g.geometric_altitude_ft
    &&& f.track_deg == g.track_deg
    &&& f.vertical_rate_fpm == g.vertical_rate_fpm
    &&& text::opt(f.squawk) == text::opt(g.squawk)
    &&& text::opt(f.emergency) == text::opt(g.emergency)
    &&& text::opt(f.emitter_category) == text::opt(g.emitter_category)
    &&& f.reported_age == g.reported_age
    &&& domain::groups_text(f.details@) == domain::groups_text(g.details@)
}

/// Aircraft that differ in their groundspeed alone become flights that differ in it alone.
pub proof fn law_groundspeed_touches_nothing_else(
    a: WireAircraft,
    b: WireAircraft,
    f: Flight,
    g: Flight,
)
    requires
        a == (WireAircraft { gs: a.gs, ..b }),
        a.becomes(f),
        b.becomes(g),
    ensures
        same_but_groundspeed(f, g),
        f.groundspeed_kt == a.gs,
        g.groundspeed_kt == b.gs,
{
}

/// What is left of an optional text: nothing of one that is missing or blank, and else the text
/// without the white space around it.
pub open spec fn is_text_of(shown: Option<Seq<char>>, sent: Option<Seq<char>>) -> bool {
    match sent {
        None => shown is None,
        Some(s) => match shown {
            None => forall|i: int| 0 <= i < s.len() ==> text::white(#[trigger] s[i]),
            Some(t) => t.len() > 0 && !text::white(t[0]) && !text::white(t.last()) && exists|
                from: int,
            | #[trigger]
                stands_alone_at(s, t, from),
        },
    }
}

/// Whether `t` stands in `s` at `from`, with white space alone around it.
pub open spec fn stands_alone_at(s: Seq<char>, t: Seq<char>, from: int) -> bool {
    &&& 0 <= from <= from + t.len() <= s.len()
    &&& s.subrange(from, from + t.len()) == t
    &&& forall|i: int|
        0 <= i < from || from + t.len() <= i < s.len() ==> text::white(#[trigger] s[i])
}

proof fn lemma_meaningful(sent: Option<Seq<char>>)
    ensures
        is_text_of(readsb::meaningful(sent), sent),
{
    if sent is Some {
        let s = sent->0;
        let at = text::law_trimming_takes_white_space_alone(s);
        let t = text::trimmed(s);
        assert(t.len() == at.1 - at.0);
        if t.len() > 0 {
            assert(t[0] == s[at.0]);
            assert(t.last() == s[at.1 - 1]);
            assert(stands_alone_at(s, t, at.0));
        } else {
            assert forall|i: int| 0 <= i < s.len() implies text::white(#[trigger] s[i]) by {
                assert(i < at.0 || at.1 <= i);
            }
        }
    }
}

/// Every text of a flight is the field that the feed has for it, without the blanks that pad
/// it; a blank one is no text.
pub proof fn law_texts_are_the_feeds(w: WireAircraft, f: Flight)
    requires
        w.becomes(f),
    ensures
        is_text_of(text::opt(f.ident), text::opt(w.flight)),
        is_text_of(text::opt(f.aircraft_type), text::opt(w.t)),
        is_text_of(text::opt(f.model), text::opt(w.desc)),
        is_text_of(text::opt(f.registration), text::opt(w.r)),
        is_text_of(text::opt(f.operator), text::opt(w.own_op)),
        is_text_of(text::opt(f.squawk), text::opt(w.squawk)),
{
    lemma_meaningful(text::opt(w.flight));
    lemma_meaningful(text::opt(w.t));
    lemma_meaningful(text::opt(w.desc));
    lemma_meaningful(text::opt(w.r));
    lemma_meaningful(text::opt(w.own_op));
    lemma_meaningful(text::opt(w.squawk));
}

/// The routine word for no emergency, in any case, is no emergency; any other is the emergency
/// as it was sent.
pub proof fn law_no_emergency_is_none(w: WireAircraft, f: Flight)
    requires
        w.becomes(f),
    ensures
        f.emergency is Some ==> is_text_of(text::opt(f.emergency), text::opt(w.emergency)),
        f.emergency is Some ==> !text::same_ignoring_case(f.emergency->0@, "none"@),
        f.emergency is None ==> w.emergency is None || is_text_of(None, text::opt(w.emergency))
            || exists|e: Seq<char>| #[trigger]
            is_text_of(Some(e), text::opt(w.emergency)) && text::same_ignoring_case(e, "none"@),
{
    lemma_meaningful(text::opt(w.emergency));
    if f.emergency is None && readsb::meaningful(text::opt(w.emergency)) is Some {
        let e = readsb::meaningful(text::opt(w.emergency))->0;
        assert(is_text_of(Some(e), text::opt(w.emergency)));
    }
}

/// A flight has a category exactly where the feed sent one that is not blank, and two aircraft
/// with one code have one category.
pub proof fn law_category_is_decoded(a: WireAircraft, b: WireAircraft, f: Flight, g: Flight)
    requires
        a.becomes(f),
        b.becomes(g),
        text::opt(a.category) == text::opt(b.category),
    ensures
        text::opt(f.emitter_category) == text::opt(g.emitter_category),
        f.emitter_category is None <==> is_text_of(None, text::opt(a.category)),
{
    lemma_meaningful(text::opt(a.category));
    if a.category is Some {
        let s = a.category->0@;
        let at = text::law_trimming_takes_white_space_alone(s);
        if at.0 < at.1 {
            assert(!text::white(s[at.0]));
        }
    }
}

/// The codes that name a class by letter and size are told apart by their labels, and a code
/// that is none of the known ones is its own label.
pub proof fn law_category_labels()
    ensures
        readsb::category_label("A1"@) == "light"@,
        readsb::category_label("A2"@) == "small"@,
        readsb::category_label("A3"@) == "large"@,
        readsb::category_label("A4"@) == "high-vortex large"@,
        readsb::category_label("A5"@) == "heavy"@,
        readsb::category_label("A6"@) == "high performance"@,
        readsb::category_label("A7"@) == "rotorcraft"@,
        readsb::category_label("B1"@) == "glider / sailplane"@,
        readsb::category_label("B2"@) == "lighter-than-air"@,
        readsb::category_label("B3"@) == "parachutist"@,
        readsb::category_label("B4"@) == "ultralight / hang-glider"@,
        readsb::category_label("B6"@) == "unmanned"@,
        readsb::category_label("B7"@) == "space vehicle"@,
        readsb::category_label("C1"@) == "surface — emergency vehicle"@,
        readsb::category_label("C2"@) == "surface — service vehicle"@,
        readsb::category_label("C3"@) == "point obstacle"@,
        readsb::category_label("A0"@) == "no info"@,
        readsb::category_label("B0"@) == "no info"@,
        readsb::category_label("C0"@) == "no info"@,
        forall|code: Seq<char>|
            code.len() != 2 ==> #[trigger] readsb::category_label(code) == code,
        forall|code: Seq<char>|
            code.len() == 2 && !(code[0] == 'A' || code[0] == 'B' || code[0] == 'C')
                ==> #[trigger] readsb::category_label(code) == code,
{
    reveal_strlit("A0");
    reveal_strlit("A1");
    reveal_strlit("A2");
    reveal_strlit("A3");
    reveal_strlit("A4");
    reveal_strlit("A5");
    reveal_strlit("A6");
    reveal_strlit("A7");
    reveal_strlit("B0");
    reveal_strlit("B1");
    reveal_strlit("B2");
    reveal_strlit("B3");
    reveal_strlit("B4");
    reveal_strlit("B6");
    reveal_strlit("B7");
    reveal_strlit("C0");
    reveal_strlit("C1");
    reveal_strlit("C2");
    reveal_strlit("C3");
    assert("A0"@[0] == 'A' && "A0"@[1] == '0');
    assert("A1"@[0] == 'A' && "A1"@[1] == '1');
    assert("A2"@[0] == 'A' && "A2"@[1] == '2');
    assert("A3"@[0] == 'A' && "A3"@[1] == '3');
    assert("A4"@[0] == 'A' && "A4"@[1] == '4');
    assert("A5"@[0] == 'A' && "A5"@[1] == '5');
    assert("A6"@[0] == 'A' && "A6"@[1] == '6');
    assert("A7"@[0] == 'A' && "A7"@[1] == '7');
    assert("B0"@[0] == 'B' && "B0"@[1] == '0');
    assert("B1"@[0] == 'B' && "B1"@[1] == '1');
    assert("B2"@[0] == 'B' && "B2"@[1] == '2');
    assert("B3"@[0] == 'B' && "B3"@[1] == '3');
    assert("B4"@[0] == 'B' && "B4"@[1] == '4');
    assert("B6"@[0] == 'B' && "B6"@[1] == '6');
    assert("B7"@[0] == 'B' && "B7"@[1] == '7');
    assert("C0"@[0] == 'C' && "C0"@[1] == '0');
    assert("C1"@[0] == 'C' && "C1"@[1] == '1');
    assert("C2"@[0] == 'C' && "C2"@[1] == '2');
    assert("C3"@[0] == 'C' && "C3"@[1] == '3');
}

/// The age that a flight came with is the nearest number of nanoseconds to the seconds that the
/// feed names; none, a negative one or no number is no age.
pub proof fn law_age_is_the_feeds(w: WireAircraft, f: Flight)
    requires
        w.becomes(f),
    ensures
        w.seen_pos is None ==> f.reported_age.nanos == 0,
        w.seen_pos is Some && w.seen_pos->0.nan() ==> f.reported_age.nanos == 0,
        w.seen_pos is Some && w.seen_pos->0.finite() && w.seen_pos->0.units() < 0
            ==> f.reported_age.nanos == 0,
        w.seen_pos is Some && w.seen_pos->0.finite() && w.seen_pos->0.units() >= 0 ==> 2
            * number::apart(
            f.reported_age.nanos * number::one(),
            w.seen_pos->0.units() * 1_000_000_000,
        ) <= number::one(),
{
    assert(0 * number::one() == 0) by (nonlinear_arith);
    vstd::arithmetic::power2::lemma_pow2_pos(1074);
    if w.seen_pos is Some && w.seen_pos->0.finite() && w.seen_pos->0.units() >= 0 {
        let u = w.seen_pos->0.units();
        assert(u * 1_000_000_000 >= 0) by (nonlinear_arith)
            requires
                u >= 0,
        ;
        number::law_rounding_is_to_the_nearest((u * 1_000_000_000) as nat, number::one());
    }
}

/// An aircraft is on the ground where its barometric altitude is the word for it, in any case;
/// a number never says so.
pub proof fn law_ground_is_a_word(w: WireAircraft)
    ensures
        w.grounded() ==> w.alt_baro is Some && w.alt_baro->0 is Label,
        w.alt_baro is Some && w.alt_baro->0 is Label ==> (w.grounded() <==> ({
            let s = w.alt_baro->0->Label_0@;
            s.len() == "ground"@.len() && forall|i: int|
                0 <= i < s.len() ==> text::same_letter(#[trigger] s[i], "ground"@[i])
        })),
{
    if w.alt_baro is Some && w.alt_baro->0 is Label {
        text::law_case_is_that_of_ascii_letters(w.alt_baro->0->Label_0@, "ground"@);
    }
}

/// Flights stand in the order of their aircraft.
pub proof fn law_flights_keep_the_order_of_the_feed(ac: Seq<WireAircraft>, n: nat, k: int, l: int)
    requires
        n <= ac.len(),
        0 <= k < l < readsb::airborne(ac, n).len(),
    ensures
        readsb::airborne(ac, n)[k] < readsb::airborne(ac, n)[l],
    decreases n,
{
    let m = (n - 1) as nat;
    let before = readsb::airborne(ac, m);
    if l < before.len() {
        law_flights_keep_the_order_of_the_feed(ac, m, k, l);
    } else {
        readsb::law_only_airborne_aircraft_become_flights(ac, m, k);
    }
}

/// Only an aircraft on the ground leaves its address as such.
pub proof fn law_only_grounded_addresses_are_noted(ac: Seq<WireAircraft>, n: nat, k: int) -> (i: int)
    requires
        n <= ac.len(),
        0 <= k < readsb::grounds(ac, n).len(),
    ensures
        0 <= i < n,
        ac[i].grounded(),
        readsb::grounds(ac, n)[k] == ac[i].hex@,
    decreases n,
{
    let m = (n - 1) as nat;
    let before = readsb::grounds(ac, m);
    if k < before.len() {
        law_only_grounded_addresses_are_noted(ac, m, k)
    } else {
        m as int
    }
}

/// The radius that is asked for is the nearest whole number of miles, a half going up, but no
/// less than one and no more than the feeds answer for.
pub proof fn law_asked_radius_is_the_nearest(radius_nm: Number)
    requires
        radius_nm.finite(),
    ensures
        1 <= readsb::asked_radius(radius_nm) <= 250,
        number::one() <= radius_nm.units() <= 250 * number::one() ==> -number::one() < 2 * (
        readsb::asked_radius(radius_nm) * number::one() - radius_nm.units()) <= number::one(),
        radius_nm.units() < number::one() ==> readsb::asked_radius(radius_nm) == 1,
        radius_nm.units() > 250 * number::one() ==> readsb::asked_radius(radius_nm) == 250,
{
    let o = number::one() as int;
    let u = radius_nm.units();
    vstd::arithmetic::power2::lemma_pow2_pos(1074);
    let q = (2 * u + o) / (2 * o);
    let rem = (2 * u + o) % (2 * o);
    vstd::arithmetic::div_mod::lemma_fundamental_div_mod(2 * u + o, 2 * o);
    assert(2 * (q * o) == 2 * u + o - rem) by (nonlinear_arith)
        requires
            2 * u + o == (2 * o) * q + rem,
    ;
    assert(u < o ==> q <= 1) by (nonlinear_arith)
        requires
            2 * (q * o) <= 2 * u + o,
            o > 0,
    ;
    assert(u > 250 * o ==> q >= 250) by (nonlinear_arith)
        requires
            2 * (q * o) > 2 * u - o,
            o > 0,
    ;
    assert(o <= u ==> q >= 1) by (nonlinear_arith)
        requires
            2 * (q * o) > 2 * u - o,
            o > 0,
    ;
    assert(u <= 250 * o ==> q <= 250) by (nonlinear_arith)
        requires
            2 * (q * o) <= 2 * u + o,
            o > 0,
    ;
}

/// A point query names the latitude, the longitude and the radius of the area, in this order,
/// behind the address of the source.
pub proof fn law_query_names_the_area(base: Seq<char>, center: LatLon, radius_nm: Number)
    ensures
        readsb::point_url(base, center, radius_nm) == base + ("/point/"@ + decimal::fixed_text(
            center.lat,
            6,
        ) + "/"@ + decimal::fixed_text(center.lon, 6) + "/"@ + decimal::dec(
            readsb::asked_radius(radius_nm) as nat,
        )),
{
    let tail = "/point/"@ + decimal::fixed_text(center.lat, 6) + "/"@ + decimal::fixed_text(
        center.lon,
        6,
    ) + "/"@ + decimal::dec(readsb::asked_radius(radius_nm) as nat);
    assert(readsb::point_url(base, center, radius_nm) =~= base + tail);
}

/// Whether a section holds a value under a label.
pub open spec fn holds(
    fields: Seq<(Seq<char>, Seq<char>)>,
    label: Seq<char>,
    value: Seq<char>,
) -> bool {
    fields.contains((label, value))
}

/// One for a value that there is.
pub open spec fn one_if(there: bool) -> nat {
    if there {
        1
    } else {
        0
    }
}

/// What the receiver says of the signal is shown, each value that was sent and none besides.
pub proof fn law_signal_is_shown(w: WireAircraft)
    ensures
        w.signal().len() == one_if(w.rssi is Some) + one_if(w.messages is Some) + one_if(
            w.seen is Some,
        ),
        w.rssi is Some ==> holds(
            w.signal(),
            "RSSI"@,
            decimal::fixed_text(w.rssi->0, 1) + " dBFS"@,
        ),
        w.messages is Some ==> holds(
            w.signal(),
            "Messages"@,
            text::int_text(w.messages->0 as int),
        ),
        w.seen is Some ==> holds(
            w.signal(),
            "Last seen"@,
            decimal::fixed_text(w.seen->0, 1) + "s ago"@,
        ),
{
    reveal_strlit("");
    let all = w.signal();
    let a = one_if(w.rssi is Some);
    let b = one_if(w.messages is Some);
    if w.rssi is Some {
        assert(all[0] == ("RSSI"@, decimal::fixed_text(w.rssi->0, 1) + " dBFS"@));
    }
    if w.messages is Some {
        let t = text::int_text(w.messages->0 as int);
        assert(t + ""@ =~= t);
        assert(all[a as int] == ("Messages"@, t));
    }
    if w.seen is Some {
        assert(all[(a + b) as int] == (
            "Last seen"@,
            decimal::fixed_text(w.seen->0, 1) + "s ago"@,
        ));
    }
}

type Fields = Seq<(Seq<char>, Seq<char>)>;

/// The fields of the first `n` parts in a row.
spec fn flat(parts: Seq<Fields>, n: nat) -> Fields
    decreases n,
{
    if n == 0 {
        Seq::empty()
    } else {
        flat(parts, (n - 1) as nat) + parts[n - 1]
    }
}

proof fn lemma_flat_holds(parts: Seq<Fields>, n: nat, i: int)
    requires
        0 <= i < n <= parts.len(),
        parts[i].len() > 0,
    ensures
        flat(parts, n).contains(parts[i][0]),
    decreases n,
{
    let before = flat(parts, (n - 1) as nat);
    if i == n - 1 {
        assert(flat(parts, n)[before.len() as int] == parts[i][0]);
    } else {
        lemma_flat_holds(parts, (n - 1) as nat, i);
        let k = choose|k: int| 0 <= k < before.len() && before[k] == parts[i][0];
        assert(flat(parts, n)[k] == parts[i][0]);
    }
}

/// The parts that the figures of integrity are made of.
spec fn integrity_parts(w: WireAircraft) -> Seq<Fields> {
    seq![
        readsb::given("NIC"@, readsb::count(w.nic, ""@)),
        readsb::given("Radius of containment"@, readsb::count(w.rc, " m"@)),
        readsb::given("NIC baro"@, readsb::count(w.nic_baro, ""@)),
        readsb::given("NACp"@, readsb::count(w.nac_p, ""@)),
        readsb::given("NACv"@, readsb::count(w.nac_v, ""@)),
        readsb::given("SIL"@, readsb::count(w.sil, ""@)),
        readsb::given("SIL type"@, text::opt(w.sil_type)),
        readsb::given("GVA"@, readsb::count(w.gva, ""@)),
        readsb::given("SDA"@, readsb::count(w.sda, ""@)),
    ]
}

proof fn lemma_integrity_parts(w: WireAircraft)
    ensures
        w.integrity() == flat(integrity_parts(w), 9),
{
    let p = integrity_parts(w);
    assert(flat(p, 0) =~= Seq::empty());
    assert(flat(p, 1) =~= p[0]);
    assert(flat(p, 2) == p[0] + p[1]);
    assert(flat(p, 3) == p[0] + p[1] + p[2]);
    assert(flat(p, 4) == p[0] + p[1] + p[2] + p[3]);
    assert(flat(p, 5) == p[0] + p[1] + p[2] + p[3] + p[4]);
    assert(flat(p, 6) == p[0] + p[1] + p[2] + p[3] + p[4] + p[5]);
    assert(flat(p, 7) == p[0] + p[1] + p[2] + p[3] + p[4] + p[5] + p[6]);
    assert(flat(p, 8) == p[0] + p[1] + p[2] + p[3] + p[4] + p[5] + p[6] + p[7]);
    assert(flat(p, 9) == p[0] + p[1] + p[2] + p[3] + p[4] + p[5] + p[6] + p[7] + p[8]);
}

proof fn lemma_count(label: Seq<char>, v: Option<i64>)
    ensures
        v is Some ==> readsb::given(label, readsb::count(v, ""@)) == seq![
            (label, text::int_text(v->0 as int)),
        ],
        readsb::given(label, readsb::count(v, ""@)).len() == one_if(v is Some),
{
    reveal_strlit("");
    if v is Some {
        let t = text::int_text(v->0 as int);
        assert(t + ""@ =~= t);
    }
}

/// Every figure of integrity that was sent is shown under its own label, and none besides.
pub proof fn law_integrity_is_shown(w: WireAircraft)
    ensures
        w.integrity().len() == one_if(w.nic is Some) + one_if(w.rc is Some) + one_if(
            w.nic_baro is Some,
        ) + one_if(w.nac_p is Some) + one_if(w.nac_v is Some) + one_if(w.sil is Some) + one_if(
            w.sil_type is Some,
        ) + one_if(w.gva is Some) + one_if(w.sda is Some),
        w.nic is Some ==> holds(w.integrity(), "NIC"@, text::int_text(w.nic->0 as int)),
        w.rc is Some ==> holds(
            w.integrity(),
            "Radius of containment"@,
            text::int_text(w.rc->0 as int) + " m"@,
        ),
        w.nic_baro is Some ==> holds(
            w.integrity(),
            "NIC baro"@,
            text::int_text(w.nic_baro->0 as int),
        ),
        w.nac_p is Some ==> holds(w.integrity(), "NACp"@, text::int_text(w.nac_p->0 as int)),
        w.nac_v is Some ==> holds(w.integrity(), "NACv"@, text::int_text(w.nac_v->0 as int)),
        w.sil is Some ==> holds(w.integrity(), "SIL"@, text::int_text(w.sil->0 as int)),
        w.sil_type is Some ==> holds(w.integrity(), "SIL type"@, w.sil_type->0@),
        w.gva is Some ==> holds(w.integrity(), "GVA"@, text::int_text(w.gva->0 as int)),
        w.sda is Some ==> holds(w.integrity(), "SDA"@, text::int_text(w.sda->0 as int)),
{
    let p = integrity_parts(w);
    lemma_integrity_parts(w);
    lemma_count("NIC"@, w.nic);
    lemma_count("NIC baro"@, w.nic_baro);
    lemma_count("NACp"@, w.nac_p);
    lemma_count("NACv"@, w.nac_v);
    lemma_count("SIL"@, w.sil);
    lemma_count("GVA"@, w.gva);
    lemma_count("SDA"@, w.sda);
    if w.nic is Some {
        lemma_flat_holds(p, 9, 0);
    }
    if w.rc is Some {
        lemma_flat_holds(p, 9, 1);
    }
    if w.nic_baro is Some {
        lemma_flat_holds(p, 9, 2);
    }
    if w.nac_p is Some {
        lemma_flat_holds(p, 9, 3);
    }
    if w.nac_v is Some {
        lemma_flat_holds(p, 9, 4);
    }
    if w.sil is Some {
        lemma_flat_holds(p, 9, 5);
    }
    if w.sil_type is Some {
        lemma_flat_holds(p, 9, 6);
    }
    if w.gva is Some {
        lemma_flat_holds(p, 9, 7);
    }
    if w.sda is Some {
        lemma_flat_holds(p, 9, 8);
    }
}

/// Whether a list that was sent has an entry.
pub open spec fn has_entries(v: Option<Vec<String>>) -> bool {
    v is Some && v->0@.len() > 0
}

/// What is set on the flight deck is shown, each value that was sent and none besides; a list
/// without entries counts as not sent.
pub proof fn law_navigation_is_shown(w: WireAircraft)
    ensures
        w.navigation().len() == one_if(w.nav_qnh is Some) + one_if(w.nav_altitude_mcp is Some)
            + one_if(w.nav_heading is Some) + one_if(has_entries(w.nav_modes)),
        w.nav_qnh is Some ==> holds(
            w.navigation(),
            "QNH"@,
            decimal::fixed_text(w.nav_qnh->0, 1) + " hPa"@,
        ),
        w.nav_altitude_mcp is Some ==> holds(
            w.navigation(),
            "Selected altitude"@,
            decimal::fixed_text(w.nav_altitude_mcp->0, 0) + " ft"@,
        ),
        w.nav_heading is Some ==> holds(
            w.navigation(),
            "Selected heading"@,
            decimal::fixed_text(w.nav_heading->0, 0) + "°"@,
        ),
        has_entries(w.nav_modes) ==> holds(
            w.navigation(),
            "Modes"@,
            text::joined(text::all(w.nav_modes->0@), ", "@),
        ),
{
    let all = w.navigation();
    let a = one_if(w.nav_qnh is Some);
    let b = a + one_if(w.nav_altitude_mcp is Some);
    let c = b + one_if(w.nav_heading is Some);
    if w.nav_qnh is Some {
        assert(all[0] == ("QNH"@, decimal::fixed_text(w.nav_qnh->0, 1) + " hPa"@));
    }
    if w.nav_altitude_mcp is Some {
        assert(all[a as int] == (
            "Selected altitude"@,
            decimal::fixed_text(w.nav_altitude_mcp->0, 0) + " ft"@,
        ));
    }
    if w.nav_heading is Some {
        assert(all[b as int] == (
            "Selected heading"@,
            decimal::fixed_text(w.nav_heading->0, 0) + "°"@,
        ));
    }
    if has_entries(w.nav_modes) {
        assert(all[c as int] == ("Modes"@, text::joined(text::all(w.nav_modes->0@), ", "@)));
    }
}

/// Where the data came from is shown, each value that was sent and none besides; a flag is shown
/// where it is set.
pub proof fn law_provenance_is_shown(w: WireAircraft)
    ensures
        w.provenance().len() == one_if(w.data_type is Some) + one_if(w.version is Some) + one_if(
            has_entries(w.mlat),
        ) + one_if(has_entries(w.tisb)) + one_if(w.alert == Some(1i64)) + one_if(
            w.spi == Some(1i64),
        ),
        w.data_type is Some ==> holds(
            w.provenance(),
            "Data source"@,
            readsb::data_type_label(w.data_type->0@),
        ),
        w.version is Some ==> holds(
            w.provenance(),
            "ADS-B version"@,
            text::int_text(w.version->0 as int),
        ),
        has_entries(w.mlat) ==> holds(
            w.provenance(),
            "MLAT fields"@,
            text::joined(text::all(w.mlat->0@), ", "@),
        ),
        has_entries(w.tisb) ==> holds(
            w.provenance(),
            "TIS-B fields"@,
            text::joined(text::all(w.tisb->0@), ", "@),
        ),
        w.alert == Some(1i64) ==> holds(w.provenance(), "Alert"@, "yes"@),
        w.spi == Some(1i64) ==> holds(w.provenance(), "SPI / ident"@, "yes"@),
{
    reveal_strlit("");
    let all = w.provenance();
    let a = one_if(w.data_type is Some);
    let b = a + one_if(w.version is Some);
    let c = b + one_if(has_entries(w.mlat));
    let d = c + one_if(has_entries(w.tisb));
    let e = d + one_if(w.alert == Some(1i64));
    if w.data_type is Some {
        assert(all[0] == ("Data source"@, readsb::data_type_label(w.data_type->0@)));
    }
    if w.version is Some {
        let t = text::int_text(w.version->0 as int);
        assert(t + ""@ =~= t);
        assert(all[a as int] == ("ADS-B version"@, t));
    }
    if has_entries(w.mlat) {
        assert(all[b as int] == ("MLAT fields"@, text::joined(text::all(w.mlat->0@), ", "@)));
    }
    if has_entries(w.tisb) {
        assert(all[c as int] == ("TIS-B fields"@, text::joined(text::all(w.tisb->0@), ", "@)));
    }
    if w.alert == Some(1i64) {
        assert(all[d as int] == ("Alert"@, "yes"@));
    }
    if w.spi == Some(1i64) {
        assert(all[e as int] == ("SPI / ident"@, "yes"@));
    }
}

/// The known ways of deriving a position have their own labels; any other is its own.
pub proof fn law_data_type_labels(other: Seq<char>)
    ensures
        readsb::data_type_label("adsb_icao"@) == "ADS-B (ICAO)"@,
        readsb::data_type_label("adsb_icao_nt"@) == "ADS-B (ICAO, non-transponder)"@,
        readsb::data_type_label("adsr_icao"@) == "ADS-R (ICAO)"@,
        readsb::data_type_label("tisb_icao"@) == "TIS-B (ICAO)"@,
        readsb::data_type_label("adsc"@) == "ADS-C"@,
        readsb::data_type_label("mlat"@) == "MLAT"@,
        readsb::data_type_label("mode_s"@) == "Mode S"@,
        readsb::data_type_label("adsb_other"@) == "ADS-B (other)"@,
        readsb::data_type_label("adsr_other"@) == "ADS-R (other)"@,
        readsb::data_type_label("tisb_other"@) == "TIS-B (other)"@,
        readsb::data_type_label("tisb_trackfile"@) == "TIS-B trackfile"@,
        other.len() > 0 && other[0] != 'a' && other[0] != 't' && other[0] != 'm'
            ==> readsb::data_type_label(other) == other,
{
    reveal_strlit("adsb_icao");
    reveal_strlit("adsb_icao_nt");
    reveal_strlit("adsr_icao");
    reveal_strlit("tisb_icao");
    reveal_strlit("adsc");
    reveal_strlit("mlat");
    reveal_strlit("mode_s");
    reveal_strlit("adsb_other");
    reveal_strlit("adsr_other");
    reveal_strlit("tisb_other");
    reveal_strlit("tisb_trackfile");
    assert("adsb_icao"@.len() == 9 && "adsb_icao"@[0] == 'a' && "adsb_icao"@[3] == 'b' && "adsb_icao"@[5] == 'i');
    assert("adsb_icao_nt"@.len() == 12 && "adsb_icao_nt"@[0] == 'a' && "adsb_icao_nt"@[3] == 'b' && "adsb_icao_nt"@[5] == 'i');
    assert("adsr_icao"@.len() == 9 && "adsr_icao"@[0] == 'a' && "adsr_icao"@[3] == 'r' && "adsr_icao"@[5] == 'i');
    assert("tisb_icao"@.len() == 9 && "tisb_icao"@[0] == 't' && "tisb_icao"@[3] == 'b' && "tisb_icao"@[5] == 'i');
    assert("adsc"@.len() == 4 && "adsc"@[0] == 'a' && "adsc"@[3] == 'c');
    assert("mlat"@.len() == 4 && "mlat"@[0] == 'm' && "mlat"@[3] == 't');
    assert("mode_s"@.len() == 6 && "mode_s"@[0] == 'm' && "mode_s"@[3] == 'e' && "mode_s"@[5] == 's');
    assert("adsb_other"@.len() == 10 && "adsb_other"@[0] == 'a' && "adsb_other"@[3] == 'b' && "adsb_other"@[5] == 'o');
    assert("adsr_other"@.len() == 10 && "adsr_other"@[0] == 'a' && "adsr_other"@[3] == 'r' && "adsr_other"@[5] == 'o');
    assert("tisb_other"@.len() == 10 && "tisb_other"@[0] == 't' && "tisb_other"@[3] == 'b' && "tisb_other"@[5] == 'o');
    assert("tisb_trackfile"@.len() == 14 && "tisb_trackfile"@[0] == 't' && "tisb_trackfile"@[3] == 'b' && "tisb_trackfile"@[5] == 't');
}

/// Every section that has a field is shown under its title, in a fixed order, and no other.
pub proof fn law_sections_are_shown(w: WireAircraft)
    ensures
        w.telemetry().len() == one_if(w.signal().len() > 0) + one_if(w.integrity().len() > 0)
            + one_if(w.navigation().len() > 0) + one_if(w.provenance().len() > 0) + one_if(
            w.year is Some,
        ),
        w.signal().len() > 0 ==> w.telemetry().contains(("Signal"@, w.signal())),
        w.integrity().len() > 0 ==> w.telemetry().contains(("Integrity"@, w.integrity())),
        w.navigation().len() > 0 ==> w.telemetry().contains(("Navigation"@, w.navigation())),
        w.provenance().len() > 0 ==> w.telemetry().contains(("Provenance"@, w.provenance())),
        w.year is Some ==> w.telemetry().contains(("Airframe"@, seq![("Year"@, w.year->0@)])),
{
    let all = w.telemetry();
    let a = one_if(w.signal().len() > 0);
    let b = a + one_if(w.integrity().len() > 0);
    let c = b + one_if(w.navigation().len() > 0);
    let d = c + one_if(w.provenance().len() > 0);
    if w.signal().len() > 0 {
        assert(all[0] == ("Signal"@, w.signal()));
    }
    if w.integrity().len() > 0 {
        assert(all[a as int] == ("Integrity"@, w.integrity()));
    }
    if w.navigation().len() > 0 {
        assert(all[b as int] == ("Navigation"@, w.navigation()));
    }
    if w.provenance().len() > 0 {
        assert(all[c as int] == ("Provenance"@, w.provenance()));
    }
    if w.year is Some {
        assert(w.airframe() =~= seq![("Year"@, w.year->0@)]);
        assert(all[d as int] == ("Airframe"@, w.airframe()));
    }
}

/// A flight carries the telemetry of its aircraft.
pub proof fn law_telemetry_goes_with_the_flight(w: WireAircraft, f: Flight, k: int)
    requires
        w.becomes(f),
        0 <= k < f.details@.len(),
    ensures
        f.details@.len() == w.telemetry().len(),
        f.details@[k].title@ == w.telemetry()[k].0,
        domain::fields_text(f.details@[k].fields@) == w.telemetry()[k].1,
{
    assert(domain::groups_text(f.details@)[k] == f.details@[k]@);
}

/// The flights of an answer are those of its airborne aircraft, one for one and in their order.
pub proof fn law_flights_are_those_of_the_aircraft(
    flights: Seq<Flight>,
    ac: Seq<WireAircraft>,
    k: int,
)
    requires
        readsb::are_flights_of(flights, ac, ac.len()),
        0 <= k < flights.len(),
    ensures
        flights.len() == readsb::airborne(ac, ac.len()).len(),
        flights[k].hex@ == ac[readsb::airborne(ac, ac.len())[k]].hex@,
        flights[k].groundspeed_kt == ac[readsb::airborne(ac, ac.len())[k]].gs,
        Some(flights[k].position.lat) == ac[readsb::airborne(ac, ac.len())[k]].lat,
        Some(flights[k].position.lon) == ac[readsb::airborne(ac, ac.len())[k]].lon,
        !ac[readsb::airborne(ac, ac.len())[k]].grounded(),
{
    readsb::law_only_airborne_aircraft_become_flights(ac, ac.len(), k);
    assert(ac[readsb::airborne(ac, ac.len())[k]].becomes(flights[k]));
}

/// Only an absurd age keeps an aircraft from being mapped, and only where it would become a
/// flight: one of more seconds than 64 bits hold.
pub proof fn law_only_an_absurd_age_cannot_be_mapped(w: WireAircraft)
    ensures
        w.grounded() || w.lat is None || w.lon is None ==> w.mappable(),
        w.seen_pos is None ==> w.mappable(),
        w.seen_pos is Some && w.seen_pos->0.finite() && w.seen_pos->0.units()
            < 0x1_0000_0000_0000_0000 * number::one() ==> w.mappable(),
{
    assert(0 * number::one() == 0) by (nonlinear_arith);
}

/// A radius without end is asked for as the largest there is, and what is no radius as the
/// smallest.
pub proof fn law_endless_radius_is_the_largest(radius_nm: Number)
    requires
        !radius_nm.finite(),
    ensures
        !radius_nm.nan() && !radius_nm.negative() ==> readsb::asked_radius(radius_nm) == 250,
        radius_nm.nan() || radius_nm.negative() ==> readsb::asked_radius(radius_nm) == 1,
{
}

} // verus!
