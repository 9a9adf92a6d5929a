//! The server: merging polls, choosing what to answer, pacing, configuration and routing.

use flights::api;
use flights::number::Number;
use flights::server::api::{build_meta, flight_detail, nearest, picture};
use flights::server::config::{
    config_base, Config, ConfigBase, ConfigError, Facts, Home, Poll, Resolved, Search, Server,
};
use flights::server::domain::{
    ContactState, Cpa, DetailGroup, Flight, LatLon, SearchArea, Snapshot, VerticalTrend,
};
use flights::server::http::{error_body, headers, route, status_of, Method, Route};
use flights::server::poller::{
    poll_bounds, schedule, settle, Backoff, Outcome, PollBounds, RETRY_AFTER_CEILING,
};
use flights::server::report;
use flights::server::sources::{build, SourceError};
use flights::server::tracker::{Fix, Health, Picture, Tracker, TrackerConfig};
use flights::span::{Moment, Span};

fn num(x: f64) -> Number {
    Number { bits: x.to_bits() }
}

fn val(n: Number) -> f64 {
    f64::from_bits(n.bits)
}

fn secs(s: u64) -> Span {
    Span::from_secs(s)
}

fn at(s: u64) -> Moment {
    Moment { nanos: 1_000_000_000_000 + s * 1_000_000_000 }
}

// Spherical geometry, as the program around the library works it out.

const EARTH_RADIUS_NM: f64 = 60.0 * 180.0 / std::f64::consts::PI;

fn haversine(a: (f64, f64), b: (f64, f64)) -> f64 {
    let (lat1, lat2) = (a.0.to_radians(), b.0.to_radians());
    let dlat = (b.0 - a.0).to_radians();
    let dlon = (b.1 - a.1).to_radians();
    let h = (dlat / 2.0).sin().powi(2) + lat1.cos() * lat2.cos() * (dlon / 2.0).sin().powi(2);
    2.0 * EARTH_RADIUS_NM * h.sqrt().atan2((1.0 - h).sqrt())
}

fn bearing(from: (f64, f64), to: (f64, f64)) -> f64 {
    let (lat1, lat2) = (from.0.to_radians(), to.0.to_radians());
    let dlon = (to.1 - from.1).to_radians();
    let y = dlon.sin() * lat2.cos();
    let x = lat1.cos() * lat2.sin() - lat1.sin() * lat2.cos() * dlon.cos();
    (y.atan2(x).to_degrees() + 360.0) % 360.0
}

fn project(from: (f64, f64), bearing_deg: f64, distance_nm: f64) -> (f64, f64) {
    let ang = distance_nm / EARTH_RADIUS_NM;
    let brg = bearing_deg.to_radians();
    let lat1 = from.0.to_radians();
    let sin_lat2 = lat1.sin() * ang.cos() + lat1.cos() * ang.sin() * brg.cos();
    let y = brg.sin() * ang.sin() * lat1.cos();
    let x = ang.cos() - lat1.sin() * sin_lat2;
    let lon2 = from.1.to_radians() + y.atan2(x);
    (sin_lat2.asin().to_degrees(), ((lon2.to_degrees() + 540.0) % 360.0) - 180.0)
}

fn closest(home: (f64, f64), pos: (f64, f64), track_deg: f64, gs_kt: f64) -> Cpa {
    let rx = (pos.1 - home.1) * 60.0 * home.0.to_radians().cos();
    let ry = (pos.0 - home.0) * 60.0;
    let trk = track_deg.to_radians();
    let (vx, vy) = (gs_kt * trk.sin(), gs_kt * trk.cos());
    let vv = vx * vx + vy * vy;
    let t_hours = -(rx * vx + ry * vy) / vv;
    let (cx, cy) = (rx + vx * t_hours, ry + vy * t_hours);
    Cpa {
        time_to_cpa_s: num(t_hours * 3600.0),
        cpa_distance_nm: num((cx * cx + cy * cy).sqrt()),
    }
}

fn fixes(tr: &Tracker, now: &Moment) -> Vec<Fix> {
    let home = (0.0, 0.0);
    tr.reckonings_at(now)
        .iter()
        .map(|r| {
            let start = (val(r.flight.position.lat), val(r.flight.position.lon));
            let along = |leg: &flights::server::tracker::Leg| {
                let hours = leg.duration.nanos as f64 / 1e9 / 3600.0;
                project(start, val(leg.track_deg), val(leg.groundspeed_kt) * hours)
            };
            let shown = match &r.glide {
                Some(leg) => along(leg),
                None => start,
            };
            Fix {
                estimated: LatLon::new(num(shown.0), num(shown.1)),
                distance_nm: num(haversine(home, shown)),
                bearing_from_home: num(bearing(home, shown)),
                cpa: r
                    .velocity
                    .map(|(track, gs)| closest(home, shown, val(track), val(gs))),
                drifted_nm: r.drift.as_ref().map(|leg| num(haversine(home, along(leg)))),
                age_s: num(r.age.nanos as f64 / 1e9),
            }
        })
        .collect()
}

fn area() -> SearchArea {
    SearchArea { center: LatLon::new(num(0.0), num(0.0)), radius_nm: num(100.0) }
}

fn tracker_cfg() -> TrackerConfig {
    TrackerConfig {
        relevance_distance_nm: num(30.0),
        stale_after: secs(120),
        max_flight_age: secs(120),
    }
}

fn flight(hex: &str, lat: f64, lon: f64) -> Flight {
    Flight {
        hex: hex.into(),
        ident: None,
        aircraft_type: None,
        model: None,
        registration: None,
        operator: None,
        position: LatLon::new(num(lat), num(lon)),
        altitude_ft: Some(num(30_000.0)),
        geometric_altitude_ft: None,
        groundspeed_kt: None,
        track_deg: None,
        vertical_rate_fpm: None,
        squawk: None,
        emergency: None,
        emitter_category: None,
        reported_age: secs(0),
        details: Vec::new(),
    }
}

fn moving(hex: &str, lat: f64, lon: f64, track: f64, gs: f64) -> Flight {
    Flight {
        track_deg: Some(num(track)),
        groundspeed_kt: Some(num(gs)),
        ..flight(hex, lat, lon)
    }
}

fn holding(flights: Vec<Flight>) -> Tracker {
    let mut tr = Tracker::new(area(), tracker_cfg());
    tr.ingest(Snapshot::new(flights, at(0)));
    tr
}

fn view<'a>(tr: &'a Tracker, now: Moment) -> Picture<'a> {
    tr.picture_at(&now, &fixes(tr, &now))
}

fn states(tr: &Tracker, now: Moment) -> Vec<(String, ContactState)> {
    view(tr, now).tracks.iter().map(|t| (t.flight.hex.clone(), t.state)).collect()
}

// The tracker.

#[test]
fn dead_reckoning_advances_along_track_at_groundspeed() {
    let tr = holding(vec![moving("abc", 0.0, 0.0, 90.0, 360.0)]);
    let now = at(10);
    let track = tr.nearest_at(&now, &fixes(&tr, &now)).unwrap();
    assert!((val(track.distance_nm) - 1.0).abs() < 1e-2);
    assert!(val(track.estimated.lon) > 0.0, "should drift east");
    assert!(val(track.estimated.lat).abs() < 1e-6, "should not drift north/south");
}

#[test]
fn reported_age_counts_toward_extrapolation() {
    let f = Flight { reported_age: secs(10), ..moving("abc", 0.0, 0.0, 90.0, 360.0) };
    let tr = holding(vec![f]);
    let now = at(0);
    let track = tr.nearest_at(&now, &fixes(&tr, &now)).unwrap();
    assert!((val(track.distance_nm) - 1.0).abs() < 1e-2);
}

#[test]
fn nearest_is_the_smallest_ground_distance() {
    let tr = holding(vec![flight("far", 1.0, 0.0), flight("near", 0.1, 0.0)]);
    let now = at(0);
    assert_eq!(tr.nearest_at(&now, &fixes(&tr, &now)).unwrap().flight.hex, "near");
}

#[test]
fn pacing_picks_soonest_approaching_within_relevance() {
    let tr = holding(vec![
        moving("recede", 0.05, 0.0, 0.0, 400.0),
        moving("slow", -50.0 / 60.0, 0.0, 0.0, 120.0),
        moving("fast", -20.0 / 60.0, 0.0, 0.0, 480.0),
        moving("wide", -50.0 / 60.0, 80.0 / 60.0, 0.0, 480.0),
    ]);
    let now = at(0);
    let fx = fixes(&tr, &now);
    assert_eq!(tr.nearest_at(&now, &fx).unwrap().flight.hex, "recede");
    assert_eq!(tr.pacing_at(&now, &fx).unwrap().flight.hex, "fast");
}

#[test]
fn picture_agrees_with_the_granular_queries() {
    let tr = holding(vec![
        moving("recede", 0.05, 0.0, 0.0, 400.0),
        moving("fast", -20.0 / 60.0, 0.0, 0.0, 480.0),
    ]);
    let now = at(0);
    let fx = fixes(&tr, &now);
    let picture = tr.picture_at(&now, &fx);
    assert_eq!(picture.tracks.len(), tr.tracks_at(&now, &fx).len());
    assert_eq!(
        picture.nearest().map(|t| t.flight.hex.clone()),
        tr.nearest_at(&now, &fx).map(|t| t.flight.hex.clone())
    );
    assert_eq!(
        picture.pacing().map(|t| t.flight.hex.clone()),
        tr.pacing_at(&now, &fx).map(|t| t.flight.hex.clone())
    );
    assert_eq!(picture.nearest().unwrap().flight.hex, "recede");
    assert_eq!(picture.pacing().unwrap().flight.hex, "fast");
}

#[test]
fn flights_aged_past_the_cap_are_dropped() {
    let tr = holding(vec![flight("old", 0.1, 0.0)]);
    let now = at(200);
    let fx = fixes(&tr, &now);
    assert!(tr.tracks_at(&now, &fx).is_empty());
    assert!(tr.nearest_at(&now, &fx).is_none());
}

#[test]
fn health_goes_stale_then_reports_no_data_initially() {
    let mut tr = Tracker::new(area(), tracker_cfg());
    assert!(matches!(tr.health(&at(0)), Health::NoData { .. }));
    tr.ingest(Snapshot::new(vec![flight("a", 0.1, 0.0)], at(0)));
    assert!(matches!(tr.health(&at(0)), Health::Live));
    assert!(matches!(tr.health(&at(200)), Health::Stale { .. }));
}

#[test]
fn an_omitted_flight_is_held_frozen_and_lost() {
    let mut tr = holding(vec![moving("gone", 0.1, 0.0, 90.0, 360.0), flight("here", 0.2, 0.0)]);
    tr.ingest(Snapshot::new(vec![flight("here", 0.2, 0.0)], at(10)));
    let all = view(&tr, at(20));
    let gone = all.tracks.iter().find(|t| t.flight.hex == "gone").unwrap();
    assert_eq!(gone.state, ContactState::LostContact);
    assert_eq!(gone.estimated, LatLon::new(num(0.1), num(0.0)));
    assert_eq!(gone.age, secs(20));
    let here = all.tracks.iter().find(|t| t.flight.hex == "here").unwrap();
    assert_eq!(here.state, ContactState::InContact);
}

#[test]
fn a_lost_flight_can_be_nearest_but_never_paces() {
    let mut tr = holding(vec![moving("in", -0.1, 0.0, 0.0, 100.0)]);
    assert_eq!(view(&tr, at(0)).pacing().unwrap().flight.hex, "in");
    tr.ingest(Snapshot::new(vec![flight("far", 1.0, 0.0)], at(5)));
    let all = view(&tr, at(5));
    assert_eq!(all.nearest().unwrap().flight.hex, "in");
    assert!(all.pacing().is_none());
}

#[test]
fn a_ground_report_lands_a_held_flight_and_creates_none() {
    let mut tr = holding(vec![flight("aaa", 0.1, 0.0)]);
    tr.ingest(Snapshot::with_ground(vec![], vec!["aaa".into(), "bbb".into()], at(10)));
    assert_eq!(states(&tr, at(10)), vec![("aaa".to_string(), ContactState::Landed)]);
    // It stays landed until it is heard airborne again.
    tr.ingest(Snapshot::new(vec![], at(20)));
    assert_eq!(states(&tr, at(20)), vec![("aaa".to_string(), ContactState::Landed)]);
    tr.ingest(Snapshot::new(vec![flight("aaa", 0.1, 0.0)], at(30)));
    assert_eq!(states(&tr, at(30)), vec![("aaa".to_string(), ContactState::InContact)]);
}

#[test]
fn drifting_over_the_edge_is_leaving_scope() {
    // 99 nm out and flying away at 600 kt: after 60 s it would be past the 100 nm radius.
    let mut tr = holding(vec![moving("out", 99.0 / 60.0, 0.0, 0.0, 600.0)]);
    tr.ingest(Snapshot::new(vec![], at(2)));
    assert_eq!(states(&tr, at(2)), vec![("out".to_string(), ContactState::LostContact)]);
    assert_eq!(states(&tr, at(60)), vec![("out".to_string(), ContactState::LeftScope)]);
}

#[test]
fn the_last_of_two_reports_counts() {
    let tr = holding(vec![flight("x", 0.5, 0.0), flight("y", 0.4, 0.0), flight("x", 0.1, 0.0)]);
    let all = view(&tr, at(0));
    let hexes: Vec<&str> = all.tracks.iter().map(|t| t.flight.hex.as_str()).collect();
    assert_eq!(hexes, vec!["x", "y"]);
    assert!((val(all.tracks[0].distance_nm) - 6.0).abs() < 1e-6);
}

#[test]
fn a_failed_poll_keeps_the_tracks_gliding() {
    let mut tr = holding(vec![moving("abc", 0.0, 0.0, 90.0, 360.0)]);
    tr.note_error("source unavailable".into());
    let all = view(&tr, at(10));
    assert_eq!(all.tracks[0].state, ContactState::InContact);
    assert!((val(all.tracks[0].distance_nm) - 1.0).abs() < 1e-2);
    assert!(matches!(all.health, Health::Live));
    assert_eq!(tr.snapshot_age(&at(10)), Some(secs(10)));
    match tr.health(&at(121)) {
        Health::Stale { last_error } => assert_eq!(last_error.as_deref(), Some("source unavailable")),
        other => panic!("expected stale, got {other:?}"),
    }
}

#[test]
fn a_track_at_the_cap_is_still_shown() {
    let tr = holding(vec![flight("edge", 0.1, 0.0)]);
    assert_eq!(view(&tr, at(120)).tracks.len(), 1);
    let past = Moment { nanos: at(120).nanos + 1 };
    assert_eq!(view(&tr, past).tracks.len(), 0);
}

// The answers.

fn rich(hex: &str, lat: f64, lon: f64, track: f64, gs: f64) -> Flight {
    Flight {
        ident: Some(hex.to_uppercase()),
        aircraft_type: Some("B738".into()),
        model: Some("BOEING 737-800".into()),
        registration: Some("N1".into()),
        operator: Some("ACME".into()),
        geometric_altitude_ft: Some(num(30_500.0)),
        vertical_rate_fpm: Some(num(1200.0)),
        squawk: Some("1200".into()),
        emitter_category: Some("large".into()),
        details: vec![DetailGroup {
            title: "Signal".into(),
            fields: vec![("RSSI".into(), "-7.4 dBFS".into())],
        }],
        ..moving(hex, lat, lon, track, gs)
    }
}

#[test]
fn nearest_maps_the_closest_flight_with_promotions() {
    let tr = holding(vec![rich("far", -0.4, 0.0, 0.0, 400.0), rich("near", 0.05, 0.0, 0.0, 400.0)]);
    let resp = nearest(&view(&tr, at(0)), num(0.0), Some(num(0.0)));
    assert!(matches!(resp.health, api::Health::Live));
    let flight = resp.flight.expect("a nearest flight");
    assert_eq!(flight.hex, "near");
    assert_eq!(flight.aircraft_type.as_deref(), Some("B738"));
    assert_eq!(flight.vertical_trend, api::VerticalTrend::Climb);
    assert!(val(flight.distance_nm) > 0.0);
    assert!(flight.cpa.is_some());
}

#[test]
fn picture_is_nearest_first_with_pacing_hex() {
    let tr = holding(vec![
        rich("recede", 0.05, 0.0, 0.0, 400.0),
        rich("inbound", -20.0 / 60.0, 0.0, 0.0, 480.0),
    ]);
    let resp = picture(&view(&tr, at(0)), num(0.0), Some(num(0.0)));
    assert_eq!(resp.tracks.first().unwrap().hex, "recede");
    assert_eq!(resp.pacing_hex.as_deref(), Some("inbound"));
    assert_eq!(resp.tracks.len(), 2);
}

#[test]
fn flight_detail_present_carries_details_absent_is_none() {
    let tr = holding(vec![rich("abc123", 0.05, 0.0, 90.0, 400.0)]);
    let all = view(&tr, at(0));
    let detail = flight_detail(&all, "abc123").expect("present");
    assert_eq!(detail.flight.hex, "abc123");
    assert_eq!(detail.details.len(), 1);
    assert_eq!(detail.details[0].title, "Signal");
    assert_eq!(detail.details[0].fields[0].label, "RSSI");
    assert!(flight_detail(&all, "nope").is_none());
}

#[test]
fn empty_airspace_is_a_live_picture_with_null_flight() {
    let tr = holding(vec![]);
    let all = view(&tr, at(0));
    let n = nearest(&all, num(0.0), Some(num(0.0)));
    assert!(n.flight.is_none());
    let p = picture(&all, num(0.0), Some(num(0.0)));
    assert!(p.tracks.is_empty());
    assert!(p.pacing_hex.is_none());
    assert_eq!(p.health, api::Health::Live);
}

#[test]
fn a_lost_flight_goes_out_marked() {
    let mut tr = holding(vec![rich("abc123", 0.05, 0.0, 90.0, 400.0)]);
    tr.ingest(Snapshot::new(vec![], at(5)));
    tr.note_error("transient network error".into());
    let p = picture(&view(&tr, at(5)), num(1.5), None);
    assert_eq!(p.tracks[0].state, api::ContactState::LostContact);
    assert_eq!(p.as_of, num(1.5));
    assert_eq!(p.last_error, None, "a live picture carries no error");
}

#[test]
fn meta_carries_the_configuration() {
    let m = build_meta(&Config::default(), "airplanes.live", "0.1.0");
    assert_eq!(val(m.home.lat), 51.47);
    assert_eq!(val(m.home.lon), -0.4543);
    assert_eq!(val(m.radius_nm), 100.0);
    assert_eq!(val(m.relevance_nm), 30.0);
    assert_eq!(m.source, "airplanes.live");
    assert_eq!(m.units, api::Units::aviation());
    assert_eq!(m.units.distance, "nm");
}

// The types.

#[test]
fn vertical_trend_classifies_around_the_level_floor() {
    let with_rate = |rate: Option<f64>| Flight {
        vertical_rate_fpm: rate.map(num),
        ..flight("abc", 0.0, 0.0)
    };
    assert_eq!(with_rate(None).vertical_trend(), VerticalTrend::Unknown);
    assert_eq!(with_rate(Some(0.0)).vertical_trend(), VerticalTrend::Level);
    assert_eq!(with_rate(Some(99.0)).vertical_trend(), VerticalTrend::Level);
    assert_eq!(with_rate(Some(-99.0)).vertical_trend(), VerticalTrend::Level);
    assert_eq!(with_rate(Some(100.0)).vertical_trend(), VerticalTrend::Climb);
    assert_eq!(with_rate(Some(-100.0)).vertical_trend(), VerticalTrend::Descend);
}

#[test]
fn a_crawling_flight_has_no_velocity() {
    assert!(moving("a", 0.0, 0.0, 90.0, 0.9).velocity().is_none());
    assert_eq!(moving("a", 0.0, 0.0, 90.0, 1.0).velocity(), Some((num(90.0), num(1.0))));
    assert!(flight("a", 0.0, 0.0).velocity().is_none());
    assert!(moving("a", 0.0, 0.0, 90.0, f64::NAN).velocity().is_none());
}

// The poller.

fn bounds() -> PollBounds {
    PollBounds { min: secs(1), max: secs(60) }
}

fn cpa(time_to_cpa_s: f64, cpa_distance_nm: f64) -> Option<Cpa> {
    Some(Cpa { time_to_cpa_s: num(time_to_cpa_s), cpa_distance_nm: num(cpa_distance_nm) })
}

#[test]
fn quiet_airspace_polls_at_the_max_interval() {
    assert_eq!(schedule(None, bounds()), secs(60));
}

#[test]
fn imminent_cpa_clamps_to_the_source_floor() {
    assert_eq!(schedule(cpa(2.0, 1.0), bounds()), secs(1));
}

#[test]
fn distant_cpa_clamps_to_the_max_interval() {
    assert_eq!(schedule(cpa(3600.0, 5.0), bounds()), secs(60));
}

#[test]
fn mid_range_cpa_scales_with_time_to_cpa() {
    assert_eq!(schedule(cpa(80.0, 5.0), bounds()), secs(20));
    // A quarter is rounded to the nearest nanosecond, as `Duration` does it.
    for t in [4.3, 17.123_456_789, 99.999_999_999, 0.1 + 0.2, 4.0 + 1e-9, 200.0] {
        let expected = std::time::Duration::from_secs_f64(t * 0.25).as_nanos();
        let wide = PollBounds { min: Span { nanos: 0 }, max: secs(1000) };
        assert_eq!(schedule(cpa(t, 5.0), wide).nanos, expected, "for {t}");
    }
}

#[test]
fn a_past_pass_counts_as_now() {
    let wide = PollBounds { min: Span { nanos: 0 }, max: secs(60) };
    assert_eq!(schedule(cpa(-5.0, 1.0), wide).nanos, 0);
    assert_eq!(schedule(cpa(f64::NAN, 1.0), wide).nanos, 0);
    assert_eq!(schedule(cpa(-0.0, 1.0), wide).nanos, 0);
}

#[test]
fn backoff_doubles_then_caps_and_resets() {
    let mut b = Backoff::default();
    let seq: Vec<u128> = (0..8)
        .map(|_| b.next_delay(&SourceError::Transient, bounds()).as_secs())
        .collect();
    assert_eq!(seq, vec![1, 2, 4, 8, 16, 32, 60, 60]);

    b.reset();
    assert_eq!(b.next_delay(&SourceError::Transient, bounds()).as_secs(), 1);
}

#[test]
fn backoff_honors_retry_after_within_ceiling() {
    let mut b = Backoff::default();
    let d = b.next_delay(&SourceError::RateLimited { retry_after: Some(secs(12)) }, bounds());
    assert_eq!(d, secs(12));

    let d = b.next_delay(&SourceError::RateLimited { retry_after: Some(secs(9999)) }, bounds());
    assert_eq!(d.nanos, RETRY_AFTER_CEILING);
}

#[test]
fn retry_after_with_a_floor_above_the_ceiling_does_not_panic() {
    let bounds = PollBounds { min: secs(600), max: secs(600) };
    let mut b = Backoff::default();
    let d = b.next_delay(&SourceError::RateLimited { retry_after: Some(secs(30)) }, bounds);
    assert_eq!(d.nanos, RETRY_AFTER_CEILING);
    assert_eq!(d, secs(300));
}

#[test]
fn many_failures_stay_at_the_ceiling() {
    let mut b = Backoff { failures: u32::MAX };
    assert_eq!(b.next_delay(&SourceError::Unavailable, bounds()), secs(60));
    assert_eq!(b.failures, u32::MAX);
}

#[test]
fn a_success_ends_the_backoff() {
    let mut b = Backoff::default();
    assert_eq!(settle(&mut b, Outcome::Failed(&SourceError::Auth), bounds()), secs(1));
    assert_eq!(settle(&mut b, Outcome::Failed(&SourceError::Auth), bounds()), secs(2));
    assert_eq!(settle(&mut b, Outcome::Fresh(cpa(80.0, 5.0)), bounds()), secs(20));
    assert_eq!(settle(&mut b, Outcome::Failed(&SourceError::Auth), bounds()), secs(1));
}

#[test]
fn the_ceiling_is_never_below_the_floor() {
    let b = poll_bounds(secs(5), secs(10));
    assert_eq!((b.min, b.max), (secs(10), secs(10)));
    let b = poll_bounds(secs(60), secs(1));
    assert_eq!((b.min, b.max), (secs(1), secs(60)));
}

// The configuration.

fn facts(cfg: &Config, bind: Resolved) -> Facts {
    let radius = val(cfg.search.radius_nm);
    let transit = 2.0 * radius / 650.0 * 3600.0;
    Facts {
        bind,
        transit_s: num(transit),
        ceiling_s: num(transit * 0.8),
        lat_text: val(cfg.home.lat).to_string(),
        lon_text: val(cfg.home.lon).to_string(),
        radius_text: radius.to_string(),
        relevance_text: val(cfg.search.relevance_distance_nm).to_string(),
        max_interval_text: val(cfg.poll.max_interval_secs).to_string(),
    }
}

fn checked(cfg: Config) -> Result<(Config, Vec<String>), ConfigError> {
    let f = facts(&cfg, Resolved::Loopback);
    cfg.finalize(&f)
}

#[test]
fn defaults_are_valid_and_warning_free() {
    let (cfg, warnings) = checked(Config::default()).unwrap();
    assert!(warnings.is_empty(), "default config warned: {warnings:?}");
    assert_eq!(val(cfg.search.radius_nm), 100.0);
    assert_eq!(cfg.source.kind, "airplanes_live");
}

#[test]
fn relevance_is_clamped_to_the_search_radius() {
    let cfg = Config {
        search: Search { radius_nm: num(40.0), relevance_distance_nm: num(100.0) },
        ..Config::default()
    };
    let (cfg, warnings) = checked(cfg).unwrap();
    assert_eq!(val(cfg.search.relevance_distance_nm), 40.0);
    assert_eq!(warnings.len(), 1);
    assert_eq!(
        warnings[0],
        "search.relevance_distance_nm 100 exceeds the Search radius 40; clamping to the radius"
    );
}

#[test]
fn max_poll_is_clamped_below_transit_time() {
    let cfg = Config {
        search: Search { radius_nm: num(250.0), ..Search::default() },
        poll: Poll { max_interval_secs: num(3600.0) },
        ..Config::default()
    };
    let transit = val(facts(&cfg, Resolved::Loopback).transit_s);
    let (cfg, warnings) = checked(cfg).unwrap();
    assert!(val(cfg.poll.max_interval_secs) < transit);
    assert!(warnings.iter().any(|w| w.contains("transit")));
}

#[test]
fn rejects_out_of_range_home() {
    let cfg = Config { home: Home { lat: num(99.0), lon: num(0.0) }, ..Config::default() };
    let err = checked(cfg).unwrap_err();
    assert!(matches!(err, ConfigError::Invalid(_)));
    assert_eq!(err.message(), "invalid config: home lat/lon out of range: (99, 0)");
    for (lat, lon) in [(f64::NAN, 0.0), (0.0, -180.5), (-90.1, 0.0), (0.0, f64::INFINITY)] {
        let cfg = Config { home: Home { lat: num(lat), lon: num(lon) }, ..Config::default() };
        assert!(checked(cfg).is_err(), "({lat}, {lon})");
    }
    let poles = Config { home: Home { lat: num(-90.0), lon: num(180.0) }, ..Config::default() };
    assert!(checked(poles).is_ok());
}

#[test]
fn rejects_absurd_radius_instead_of_panicking() {
    let cfg = Config {
        search: Search { radius_nm: num(1e308), ..Search::default() },
        ..Config::default()
    };
    assert!(matches!(checked(cfg), Err(ConfigError::Invalid(_))));
}

#[test]
fn rejects_what_is_not_positive() {
    for (radius, relevance, interval, words) in [
        (0.0, 30.0, 60.0, "search.radius_nm must be positive, got 0"),
        (100.0, -1.0, 60.0, "search.relevance_distance_nm must be positive, got -1"),
        (100.0, 30.0, f64::NAN, "poll.max_interval_secs must be positive, got NaN"),
    ] {
        let cfg = Config {
            search: Search { radius_nm: num(radius), relevance_distance_nm: num(relevance) },
            poll: Poll { max_interval_secs: num(interval) },
            ..Config::default()
        };
        match checked(cfg) {
            Err(ConfigError::Invalid(e)) => assert_eq!(e, words),
            other => panic!("expected a refusal, got {other:?}"),
        }
    }
}

#[test]
fn rejects_a_malformed_bind_address() {
    let cfg = Config {
        server: Server { bind: "not a socket".into(), ..Server::default() },
        ..Config::default()
    };
    let f = facts(&cfg, Resolved::Malformed("invalid socket address".into()));
    match cfg.finalize(&f) {
        Err(ConfigError::Invalid(e)) => assert_eq!(
            e,
            "server.bind \"not a socket\" is not a valid address: invalid socket address"
        ),
        other => panic!("expected a refusal, got {other:?}"),
    }
    let cfg = Config::default();
    let f = facts(&cfg, Resolved::Nowhere);
    match cfg.finalize(&f) {
        Err(ConfigError::Invalid(e)) => {
            assert_eq!(e, "server.bind \"127.0.0.1:7878\" resolved to no address")
        }
        other => panic!("expected a refusal, got {other:?}"),
    }
}

#[test]
fn cors_is_off_by_default() {
    assert_eq!(Config::default().server.cors_allow_origin, None);
}

#[test]
fn rejects_a_cors_origin_that_is_not_a_valid_header_value() {
    for bad in ["http://exämple.com", "has space", "with\nnewline", ""] {
        let cfg = Config {
            server: Server { cors_allow_origin: Some(bad.into()), ..Server::default() },
            ..Config::default()
        };
        match checked(cfg) {
            Err(ConfigError::Invalid(e)) => {
                assert!(e.starts_with(&format!("server.cors_allow_origin {bad:?} is not")))
            }
            other => panic!("cors_allow_origin {bad:?} should be rejected, got {other:?}"),
        }
    }
}

#[test]
fn accepts_a_valid_cors_origin() {
    for ok in ["*", "https://flights.example", "http://127.0.0.1:5173"] {
        let cfg = Config {
            server: Server { cors_allow_origin: Some(ok.into()), ..Server::default() },
            ..Config::default()
        };
        assert!(checked(cfg).is_ok(), "cors_allow_origin {ok:?} should be accepted");
    }
}

#[test]
fn warns_but_accepts_a_non_loopback_bind() {
    let cfg = Config {
        server: Server { bind: "0.0.0.0:7878".into(), ..Server::default() },
        ..Config::default()
    };
    let f = facts(&cfg, Resolved::Exposed);
    let (_cfg, warnings) = cfg.finalize(&f).unwrap();
    assert!(
        warnings.iter().any(|w| w.contains("not loopback")),
        "a non-loopback bind should warn: {warnings:?}"
    );
}

#[test]
fn a_flag_overrides_the_origin_or_is_refused() {
    let mut cfg = Config::default();
    assert!(cfg.override_cors("http://127.0.0.1:8080".into()).is_ok());
    assert_eq!(cfg.server.cors_allow_origin.as_deref(), Some("http://127.0.0.1:8080"));
    assert!(matches!(cfg.override_cors("two words".into()), Err(ConfigError::Invalid(_))));
    assert_eq!(cfg.server.cors_allow_origin.as_deref(), Some("http://127.0.0.1:8080"));
}

#[test]
fn a_track_outlives_the_stale_threshold() {
    let t = Config::default().tracker_cfg();
    assert_eq!(t.stale_after, secs(120));
    assert_eq!(t.max_flight_age, secs(180));
    assert_eq!(Config::default().max_poll(), secs(60));
}

#[test]
fn the_summary_lists_every_section() {
    let s = Config::default().summary(&num(1107.69));
    assert_eq!(
        s,
        "Home          51.4700, -0.4543\n\
         Search area   100 nm radius (relevance 30 nm)\n\
         Poll          max 60s (transit ceiling 1108s)\n\
         Bind          127.0.0.1:7878 (CORS off)\n\
         Source        airplanes_live"
    );
}

#[test]
fn a_failed_read_names_the_file() {
    let e = ConfigError::Io { path: "/x/config.toml".into(), source: "denied".into() };
    assert_eq!(e.message(), "reading config /x/config.toml: denied");
    let e = ConfigError::Parse { path: "/x/config.toml".into(), source: "oops".into() };
    assert_eq!(e.message(), "parsing config /x/config.toml: oops");
}

#[test]
fn the_configuration_is_looked_for_in_order() {
    assert_eq!(config_base(true, true, true), ConfigBase::Explicit);
    assert_eq!(config_base(false, true, true), ConfigBase::XdgConfigHome);
    assert_eq!(config_base(false, false, true), ConfigBase::HomeDotConfig);
    assert_eq!(config_base(false, false, false), ConfigBase::DotConfig);
}

// The sources.

#[test]
fn each_known_source_has_its_own_floor() {
    let mut cfg = Config::default();
    let s = build(&cfg).unwrap();
    assert_eq!(s.name(), "airplanes.live");
    assert_eq!(s.min_interval(), secs(1));
    assert_eq!(
        s.query_url(&LatLon::new(num(51.47), num(-0.4543)), &num(99.6)),
        "https://api.airplanes.live/v2/point/51.470000/-0.454300/100"
    );
    cfg.source.kind = "readsb".into();
    assert_eq!(
        build(&cfg).err().unwrap(),
        "source.kind \"readsb\" requires source.base_url to be set (e.g. http://localhost/re-api)"
    );
    cfg.source.base_url = Some("http://pi/re-api//".into());
    let s = build(&cfg).unwrap();
    assert_eq!(s.min_interval(), Span::from_millis(250));
    assert_eq!(
        s.query_url(&LatLon::new(num(0.0), num(0.0)), &num(400.0)),
        "http://pi/re-api/point/0.000000/0.000000/250"
    );
    cfg.source.min_interval_ms = Some(2000);
    assert_eq!(build(&cfg).unwrap().min_interval(), secs(2));
    cfg.source.kind = "we\"ird".into();
    assert_eq!(
        build(&cfg).err().unwrap(),
        "unknown source.kind \"we\\\"ird\" (expected one of: airplanes_live, adsb_lol, adsb_fi, readsb)"
    );
}

#[test]
fn every_source_error_has_its_words() {
    let say = |e: SourceError| e.message(&num(12.4));
    assert_eq!(
        say(SourceError::RateLimited { retry_after: Some(secs(12)) }),
        "rate limited (retry after 12s)"
    );
    assert_eq!(say(SourceError::RateLimited { retry_after: None }), "rate limited");
    assert_eq!(say(SourceError::Unavailable), "source unavailable");
    assert_eq!(say(SourceError::Auth), "authentication failed");
    assert_eq!(say(SourceError::Decode("bad".into())), "decode error: bad");
    assert_eq!(say(SourceError::Transient), "transient network error");
}

// The routes.

#[test]
fn nearest_and_picture_and_meta_and_flight_routes() {
    let cors = Some("*".to_string());
    let inbound = Flight {
        ident: Some("TEST1".into()),
        registration: Some("N1".into()),
        altitude_ft: Some(num(10_000.0)),
        ..rich("abc123", 0.05, 0.0, 180.0, 400.0)
    };
    let tr = holding(vec![inbound]);
    let all = view(&tr, at(0));

    assert!(matches!(route(Method::Get, "/nearest"), Route::Nearest));
    assert_eq!(status_of(&Route::Nearest, false).0, 200);
    assert_eq!(nearest(&all, num(0.0), None).flight.unwrap().hex, "abc123");

    assert!(matches!(route(Method::Get, "/picture?x=1"), Route::Picture));
    assert_eq!(status_of(&Route::Picture, false).0, 200);
    let p = picture(&all, num(0.0), None);
    assert_eq!(p.tracks.first().unwrap().hex, "abc123");
    assert_eq!(p.pacing_hex.as_deref(), Some("abc123"));

    assert!(matches!(route(Method::Get, "/meta"), Route::Meta));
    assert_eq!(status_of(&Route::Meta, false).0, 200);
    assert_eq!(build_meta(&Config::default(), "test", "test").source, "test");

    let present = route(Method::Get, "/flight/abc123");
    match &present {
        Route::Flight(hex) => {
            let detail = flight_detail(&all, hex).unwrap();
            assert_eq!(detail.flight.hex, "abc123");
            assert_eq!(detail.details[0].title, "Signal");
        }
        other => panic!("expected a flight, got {other:?}"),
    }
    assert_eq!(status_of(&present, true), (200, None));

    let absent = route(Method::Get, "/flight/nope");
    match &absent {
        Route::Flight(hex) => assert!(flight_detail(&all, hex).is_none()),
        other => panic!("expected a flight, got {other:?}"),
    }
    assert_eq!(status_of(&absent, false), (404, Some("flight not in the area".to_string())));

    let bogus = route(Method::Get, "/bogus");
    assert_eq!(status_of(&bogus, false), (404, Some("not found".to_string())));

    assert!(headers(false, &cors)
        .contains(&("Access-Control-Allow-Origin".to_string(), "*".to_string())));
}

#[test]
fn no_cors_header_when_disabled() {
    assert_eq!(status_of(&route(Method::Get, "/meta"), false).0, 200);
    assert!(headers(false, &None).iter().all(|(name, _)| name != "Access-Control-Allow-Origin"));
    assert_eq!(
        headers(false, &None),
        vec![("Content-Type".to_string(), "application/json; charset=utf-8".to_string())]
    );
    assert!(headers(true, &None).is_empty());
}

#[test]
fn a_preflight_and_other_methods_are_answered() {
    let origin = Some("http://127.0.0.1:8080".to_string());
    let pre = route(Method::Options, "/anything");
    assert_eq!(status_of(&pre, false), (204, None));
    let h = headers(true, &origin);
    assert_eq!(h[0], ("Access-Control-Allow-Origin".into(), "http://127.0.0.1:8080".into()));
    assert_eq!(h[1], ("Access-Control-Allow-Methods".into(), "GET, OPTIONS".into()));
    assert_eq!(h[2], ("Access-Control-Allow-Headers".into(), "*".into()));
    let post = route(Method::Other, "/nearest");
    assert_eq!(status_of(&post, false), (405, Some("method not allowed".to_string())));
}

#[test]
fn an_error_goes_out_as_json() {
    assert_eq!(error_body("not found"), r#"{"error":"not found"}"#);
    assert_eq!(error_body("say \"hi\"\n"), r#"{"error":"say \"hi\"\n"}"#);
}

// The command line's words.

#[test]
fn a_single_poll_is_reported() {
    let tr = holding(vec![rich("abc", 0.05, 0.0, 180.0, 400.0)]);
    let now = at(0);
    let fx = fixes(&tr, &now);
    let near = tr.nearest_at(&now, &fx);
    let pace = tr.pacing_at(&now, &fx);
    let lines = report::once_lines(1, &num(100.0), &near, &pace);
    assert_eq!(
        lines,
        vec![
            "1 airborne flights within 100 nm of Home.",
            "Nearest: ABC B738 — 3.0 nm @ 000° (30000 ft)",
            "Pacing : ABC — CPA 0.0 nm in 27s",
        ]
    );
    let quiet = report::once_lines(0, &num(100.0), &None, &None);
    assert_eq!(quiet[1], "Nearest: (none)");
    assert_eq!(quiet[2], "Pacing : (none — airspace quiet)");
    assert_eq!(report::label(&flight("ddd", 0.0, 0.0)), "[ddd]");
}

#[test]
fn each_poll_is_reported() {
    let line = report::poll_line(&num(12.34), 7, &None, &None, &num(60.0));
    assert_eq!(line, "[   12.3s]   7 flights | nearest (none) | pacing (quiet) | next +60.0s");
    let line = report::failure_line(&num(100.0), "source unavailable", &num(2.0));
    assert_eq!(line, "[  100.0s] poll error: source unavailable | retry +2.0s");
    let line = report::banner("adsb.lol", &num(1.0), &num(60.0), "Ctrl-C to stop");
    assert_eq!(line, "source: adsb.lol | poll window 1.00s–60s | Ctrl-C to stop");
}
