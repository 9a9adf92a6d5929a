//! The radar that polls for itself.

use flights::number::Number;
use flights::server::domain::{DetailGroup, Flight, LatLon, SearchArea, Snapshot};
use flights::server::sources::SourceError;
use flights::server::tracker::{Fix, TrackerConfig};
use flights::span::{Moment, Span};
use flights::standalone::{status_lines, App, PollUpdate};
use flights::tui::app::{DetailView, Mode};
use flights::tui::event::Action;
use flights::tui::render::popup;
use flights::tui::style::Styled;

fn num(x: f64) -> Number {
    Number { bits: x.to_bits() }
}

fn at(s: u64) -> Moment {
    Moment { nanos: s * 1_000_000_000 }
}

fn area() -> SearchArea {
    SearchArea { center: LatLon::new(num(0.0), num(0.0)), radius_nm: num(100.0) }
}

fn radar() -> App {
    App::new(
        area(),
        TrackerConfig {
            relevance_distance_nm: num(30.0),
            stale_after: Span::from_secs(120),
            max_flight_age: Span::from_secs(120),
        },
        "testsrc".into(),
        Span::from_millis(250),
        num(30.0),
    )
}

fn moving(hex: &str, ident: &str, lat: f64) -> Flight {
    Flight {
        hex: hex.into(),
        ident: Some(ident.into()),
        aircraft_type: Some("B738".into()),
        model: Some("BOEING 737-800".into()),
        registration: None,
        operator: None,
        position: LatLon::new(num(lat), num(0.0)),
        altitude_ft: Some(num(30_000.0)),
        geometric_altitude_ft: None,
        groundspeed_kt: Some(num(452.0)),
        track_deg: Some(num(90.0)),
        vertical_rate_fpm: Some(num(1200.0)),
        squawk: None,
        emergency: None,
        emitter_category: None,
        reported_age: Span::from_secs(0),
        details: Vec::new(),
    }
}

fn snapshot(flights: Vec<Flight>, s: u64) -> PollUpdate {
    PollUpdate::Snapshot {
        snapshot: Snapshot::new(flights, at(s)),
        next_interval: Span::from_secs(1),
    }
}

/// Each track where it was reported, at its distance along the meridian.
fn fixes(app: &App, now: &Moment) -> Vec<Fix> {
    app.tracker
        .reckonings_at(now)
        .iter()
        .map(|r| Fix {
            estimated: r.flight.position,
            distance_nm: num(f64::from_bits(r.flight.position.lat.bits).abs() * 60.0),
            bearing_from_home: num(0.0),
            cpa: None,
            drifted_nm: None,
            age_s: num(r.age.nanos as f64 / 1e9),
        })
        .collect()
}

fn text_of_all(lines: &[Vec<Styled>]) -> String {
    lines
        .iter()
        .map(|l| l.iter().map(|s| s.text.as_str()).collect::<String>() + "\n")
        .collect()
}

fn popup_text(app: &App, now: &Moment) -> String {
    let view = Some(app.detail(now, &fixes(app, now)));
    text_of_all(&popup(&view, None).0)
}

fn status_text(app: &App, now: &Moment, age_s: Option<f64>) -> String {
    let p = app.picture(now, &fixes(app, now), num(0.0), age_s.map(num));
    let left = app.countdown(now).map(|d| num(d.nanos as f64 / 1e9));
    text_of_all(&status_lines(app, &p, &left))
}

#[test]
fn popup_shows_left_the_area_when_flight_absent() {
    let mut app = radar();
    app.on_update(snapshot(vec![moving("present", "PRESENT", 0.05)], 0), &at(0), &num(0.0));
    app.selected_hex = Some("ghost".into());
    app.mode = Mode::Detail;
    let text = popup_text(&app, &at(0));
    assert!(text.contains("flight left the area"), "expected the left-the-area notice");
}

#[test]
fn the_detail_of_a_held_flight_is_shown() {
    let mut app = radar();
    let mut f = moving("sel123", "SELFLT", 0.05);
    f.registration = Some("N12345".into());
    f.details = vec![DetailGroup {
        title: "Signal".into(),
        fields: vec![("RSSI".into(), "-7.4 dBFS".into())],
    }];
    app.on_update(snapshot(vec![f], 0), &at(0), &num(0.0));
    app.selected_hex = Some("sel123".into());
    assert!(matches!(app.detail(&at(0), &fixes(&app, &at(0))), DetailView::Loaded(_)));
    let text = popup_text(&app, &at(0));
    for needle in ["SELFLT", "N12345", "Position & motion", "Signal", "RSSI", "452 kt"] {
        assert!(text.contains(needle), "popup missing {needle:?}");
    }
}

#[test]
fn the_status_counts_down_to_the_next_poll() {
    let mut app = radar();
    let text = status_text(&app, &at(0), None);
    assert!(text.contains("[NO DATA]  0 flights · —"), "{text}");
    assert!(text.contains("next poll in —   relevance 30nm"), "{text}");
    app.on_update(snapshot(vec![moving("a", "ALPHA", 0.05)], 10), &at(10), &num(0.0));
    let text = status_text(&app, &Moment { nanos: 10_400_000_000 }, Some(0.4));
    assert!(text.contains("source testsrc  [LIVE]  1 flights · 0s ago"), "{text}");
    assert!(text.contains("nearest  ALPHA B738 — 3.0 nm @ 000° (30000 ft)"), "{text}");
    assert!(text.contains("next poll in 0.6s   relevance 30nm"), "{text}");
    assert!(text.contains("↑/↓ select · Enter detail · Esc clear · q quit"), "{text}");
    // An overdue poll counts as due.
    assert_eq!(app.countdown(&at(60)), Some(Span { nanos: 0 }));
}

#[test]
fn a_failed_poll_is_noted_and_tried_again() {
    let mut app = radar();
    app.on_update(
        PollUpdate::Error {
            error: SourceError::RateLimited { retry_after: Some(Span::from_secs(12)) },
            retry_in: Span::from_secs(12),
        },
        &at(5),
        &num(12.0),
    );
    assert_eq!(app.next_poll_at, Some(at(17)));
    let text = status_text(&app, &at(5), None);
    assert!(text.contains("! rate limited (retry after 12s)"), "{text}");
    app.note_poller_stopped();
    assert_eq!(app.next_poll_at, None);
    assert!(status_text(&app, &at(5), None).contains("! poller stopped"));
}

#[test]
fn the_own_radar_acts_on_the_flights_of_the_moment() {
    let mut app = radar();
    let flights = vec![moving("far", "FAR", 0.5), moving("near", "NEAR", 0.1)];
    app.on_update(snapshot(flights, 0), &at(0), &num(0.0));
    let tracks = app.picture(&at(0), &fixes(&app, &at(0)), num(0.0), None).tracks;
    assert_eq!(tracks[0].hex, "near");
    app.act(Action::OpenDetail, &tracks);
    assert_eq!((app.mode, app.selected_hex.as_deref()), (Mode::Detail, Some("near")));
    app.act(Action::ScrollDown, &tracks);
    assert_eq!(app.detail_scroll, 5);
    app.act(Action::SelectNext, &tracks);
    assert_eq!((app.detail_scroll, app.selected_hex.as_deref()), (0, Some("far")));
    app.act(Action::SelectNext, &tracks);
    assert_eq!(app.selected_hex.as_deref(), Some("near"));
    app.act(Action::CloseDetail, &tracks);
    assert_eq!((app.mode, app.selected_hex.as_deref()), (Mode::Radar, Some("near")));
    app.act(Action::ClearSelection, &tracks);
    assert_eq!(app.selected_hex, None);
    app.act(Action::SelectPrev, &vec![]);
    assert_eq!(app.selected_hex, None);
    app.act(Action::OpenDetail, &vec![]);
    assert_eq!(app.mode, Mode::Radar);
    app.act(Action::Quit, &tracks);
    assert!(!app.running);
}
