//! The clients: the radar, the status module and the page.

use flights::api::{
    ContactState, Cpa, DetailField, DetailGroup, Flight, FlightDetail, Health, LatLon, Meta,
    NearestResponse, PictureResponse, Units, VerticalTrend,
};
use flights::args::{
    parse_args, parse_tui_args, parse_waybar_args, Mode as RunMode, Program, Word,
};
use flights::client::{resolve, resolve_flight, try_again, Client, ClientError, Fetched};
use flights::number::Number;
use flights::selection::next_index;
use flights::span::Span;
use flights::tui::app::{App, Conn, DetailView, Mode};
use flights::tui::event::{next_action, Action, Key, KeyEvent};
use flights::tui::fit::{fit_groups, fit_widths, Group};
use flights::tui::layout::{centered_rect, clamp_scroll, wrapped_rows, Cells};
use flights::tui::render::{
    blip_color, list_row, popup, popup_banner, radar_label, status_lines,
};
use flights::tui::style::{raw, Color, Styled};
use flights::waybar::bar::{build, render, Bar};
use flights::web;

fn num(x: f64) -> Number {
    Number { bits: x.to_bits() }
}

fn val(n: Number) -> f64 {
    f64::from_bits(n.bits)
}

fn meta(source: &str) -> Meta {
    Meta {
        home: LatLon { lat: num(0.0), lon: num(0.0) },
        radius_nm: num(100.0),
        relevance_nm: num(30.0),
        source: source.into(),
        units: Units::aviation(),
        version: "test".into(),
    }
}

fn flight(hex: &str, ident: &str, distance_nm: f64, bearing_deg: f64) -> Flight {
    Flight {
        hex: hex.into(),
        ident: Some(ident.into()),
        aircraft_type: Some("B738".into()),
        model: Some("BOEING 737-800".into()),
        registration: None,
        operator: None,
        lat: num(0.05),
        lon: num(0.0),
        distance_nm: num(distance_nm),
        bearing_deg: num(bearing_deg),
        altitude_ft: Some(num(30_000.0)),
        geometric_altitude_ft: None,
        groundspeed_kt: Some(num(452.0)),
        track_deg: Some(num(90.0)),
        vertical_rate_fpm: Some(num(1200.0)),
        vertical_trend: VerticalTrend::Climb,
        squawk: None,
        emergency: None,
        emitter_category: None,
        state: ContactState::InContact,
        age_s: num(0.0),
        cpa: Some(Cpa { time_to_cpa_s: num(120.0), cpa_distance_nm: num(2.0) }),
    }
}

fn named(hex: &str, distance_nm: f64) -> Flight {
    flight(hex, &hex.to_uppercase(), distance_nm, 0.0)
}

fn response(tracks: Vec<Flight>, pacing_hex: Option<&str>) -> PictureResponse {
    PictureResponse {
        as_of: num(0.0),
        health: Health::Live,
        last_error: None,
        snapshot_age_s: Some(num(1.0)),
        pacing_hex: pacing_hex.map(str::to_string),
        tracks,
    }
}

fn app(tracks: Vec<Flight>, pacing_hex: Option<&str>) -> App {
    let mut a = App::new(meta("testsrc"), Span::from_millis(250));
    a.picture = Some(response(tracks, pacing_hex));
    a
}

fn text_of(line: &[Styled]) -> String {
    line.iter().map(|s| s.text.as_str()).collect()
}

fn text_of_all(lines: &[Vec<Styled>]) -> String {
    lines.iter().map(|l| text_of(l) + "\n").collect()
}

/// The words of the popup, as the state has it.
fn popup_text(a: &App) -> String {
    let (lines, footer) = popup(&a.detail, popup_banner(a));
    text_of_all(&lines) + footer
}

// The radar's selection.

#[test]
fn next_index_wraps_both_directions() {
    assert_eq!(next_index(None, 3, true), 0);
    assert_eq!(next_index(None, 3, false), 2);
    assert_eq!(next_index(Some(2), 3, true), 0);
    assert_eq!(next_index(Some(0), 3, false), 2);
    assert_eq!(next_index(Some(1), 3, true), 2);
}

#[test]
fn an_index_past_the_end_wraps_too() {
    for n in 1..6usize {
        for i in 0..20usize {
            assert_eq!(next_index(Some(i), n, true), (i + 1) % n);
            assert_eq!(next_index(Some(i), n, false), (i + n - 1) % n);
        }
    }
    assert_eq!(next_index(Some(usize::MAX), 1, true), 0);
}

#[test]
fn open_detail_uses_nearest_when_no_selection() {
    let mut a = app(vec![named("near", 6.0), named("far", 60.0)], None);
    assert!(a.selected_hex.is_none());
    a.open_detail();
    assert_eq!(a.mode, Mode::Detail);
    assert_eq!(a.selected_hex.as_deref(), Some("near"));
}

#[test]
fn open_detail_is_noop_with_no_flights() {
    let mut a = app(vec![], None);
    a.open_detail();
    assert_eq!(a.mode, Mode::Radar);
    assert!(a.selected_hex.is_none());
}

#[test]
fn stepping_selection_wraps_over_the_track_order() {
    let mut a = app(vec![named("a", 1.0), named("b", 2.0), named("c", 3.0)], None);
    a.select_next();
    assert_eq!(a.selected_hex.as_deref(), Some("a"));
    a.select_prev();
    assert_eq!(a.selected_hex.as_deref(), Some("c"));
    a.select_next();
    assert_eq!(a.selected_hex.as_deref(), Some("a"));
}

#[test]
fn close_detail_retains_selection() {
    let mut a = app(vec![named("aaa", 1.0)], None);
    a.open_detail();
    let sel = a.selected_hex.clone();
    a.close_detail();
    assert_eq!(a.mode, Mode::Radar);
    assert_eq!(a.selected_hex, sel);
}

#[test]
fn the_selection_follows_the_aircraft_through_a_new_order() {
    let mut a = app(vec![named("a", 1.0), named("b", 2.0)], None);
    a.select_next();
    a.refresh(Ok(response(vec![named("b", 1.0), named("a", 2.0)], None)));
    assert_eq!(a.selected_hex.as_deref(), Some("a"));
    a.select_next();
    assert_eq!(a.selected_hex.as_deref(), Some("b"));
}

#[test]
fn a_failed_refresh_keeps_the_last_picture() {
    let mut a = app(vec![named("a", 1.0)], None);
    a.refresh(Err(ClientError::Status(500)));
    assert_eq!(a.tracks().len(), 1);
    match &a.conn {
        Conn::Down(e) => assert_eq!(e, "unexpected HTTP status 500"),
        Conn::Up => panic!("the server did not answer"),
    }
}

#[test]
fn an_open_detail_whose_flight_is_gone_says_so() {
    let mut a = app(vec![named("a", 1.0)], None);
    a.open_detail();
    assert_eq!(a.next_fetch().as_deref(), Some("a"));
    assert_eq!(a.next_fetch(), None);
    a.sync_detail(Ok(Some(FlightDetail { flight: named("a", 1.0), details: vec![] })));
    assert!(matches!(a.detail, Some(DetailView::Loaded(_))));
    a.refresh(Ok(response(vec![], None)));
    assert!(matches!(a.detail, Some(DetailView::LeftArea)));
    a.sync_detail(Ok(None));
    assert!(matches!(a.detail, Some(DetailView::LeftArea)));
    a.sync_detail(Err(ClientError::Unreachable("refused".into())));
    match &a.detail {
        Some(DetailView::Error(e)) => assert_eq!(e, "server unreachable: refused"),
        _ => panic!("expected the error"),
    }
}

#[test]
fn stepping_in_the_detail_asks_for_the_next_flight() {
    let mut a = app(vec![named("a", 1.0), named("b", 2.0)], None);
    a.act(Action::OpenDetail);
    a.next_fetch();
    a.act(Action::ScrollDown);
    assert_eq!(a.detail_scroll, 5);
    a.act(Action::SelectNext);
    assert_eq!(a.detail_scroll, 0);
    assert_eq!(a.next_fetch().as_deref(), Some("b"));
    a.act(Action::ScrollUp);
    assert_eq!(a.detail_scroll, 0);
    a.act(Action::CloseDetail);
    a.act(Action::ClearSelection);
    assert_eq!(a.selected_hex, None);
    a.act(Action::Ignore);
    assert!(a.running);
    a.act(Action::Quit);
    assert!(!a.running);
}

#[test]
fn keys_mean_what_the_mode_says() {
    let press = |key: Key| Some(KeyEvent { key, control: false, pressed: true });
    assert_eq!(next_action(press(Key::Char('q')), Mode::Radar), Action::Quit);
    assert_eq!(next_action(press(Key::Char('c')), Mode::Radar), Action::Ignore);
    let ctrl_c = KeyEvent { key: Key::Char('c'), control: true, pressed: true };
    assert_eq!(next_action(Some(ctrl_c), Mode::Detail), Action::Quit);
    assert_eq!(next_action(press(Key::Enter), Mode::Radar), Action::OpenDetail);
    assert_eq!(next_action(press(Key::Enter), Mode::Detail), Action::Ignore);
    assert_eq!(next_action(press(Key::Esc), Mode::Radar), Action::ClearSelection);
    assert_eq!(next_action(press(Key::Esc), Mode::Detail), Action::CloseDetail);
    assert_eq!(next_action(press(Key::PageDown), Mode::Detail), Action::ScrollDown);
    assert_eq!(next_action(press(Key::PageUp), Mode::Radar), Action::Ignore);
    assert_eq!(next_action(press(Key::Char('j')), Mode::Detail), Action::SelectNext);
    assert_eq!(next_action(press(Key::Up), Mode::Radar), Action::SelectPrev);
    let released = KeyEvent { key: Key::Char('q'), control: false, pressed: false };
    assert_eq!(next_action(Some(released), Mode::Radar), Action::Ignore);
    assert_eq!(next_action(None, Mode::Radar), Action::Ignore);
}

// What the radar shows.

#[test]
fn render_draws_radar_list_and_status_with_nearest_and_pacing() {
    let a = app(
        vec![flight("aaa111", "OVERHEAD", 3.0, 0.0), flight("bbb222", "INBOUND", 24.0, 180.0)],
        Some("bbb222"),
    );
    let pacing = Some("bbb222".to_string());
    let mut text = text_of_all(&status_lines(&a));
    for t in a.tracks() {
        text += &text_of(&list_row(t, &pacing, 60));
    }
    for needle in [
        "flights", "testsrc", "LIVE", "nearest", "pacing", "OVERHEAD", "INBOUND", "select", "B738",
    ] {
        assert!(text.contains(needle), "shown text missing {needle:?}: {text}");
    }
    assert!(text.contains("nearest  OVERHEAD B738 — 3.0 nm @ 000° (30000 ft)"));
    assert!(text.contains("pacing   INBOUND — CPA 2.0 nm in 120s"));
}

#[test]
fn shows_server_unreachable_state() {
    let mut a = app(vec![flight("aaa111", "ALPHA", 3.0, 0.0)], None);
    a.conn = Conn::Down("connection refused".into());
    let text = text_of_all(&status_lines(&a));
    assert!(text.contains("UNREACHABLE"), "expected the unreachable state");
    assert!(text.contains("connection refused"), "expected the error line");
}

#[test]
fn render_popup_paints_detail_in_detail_mode() {
    let mut a = app(vec![flight("sel123", "SELFLT", 3.0, 90.0)], None);
    a.selected_hex = Some("sel123".into());
    a.mode = Mode::Detail;
    let mut f = flight("sel123", "SELFLT", 3.0, 90.0);
    f.registration = Some("N12345".into());
    a.detail = Some(DetailView::Loaded(Box::new(FlightDetail {
        flight: f,
        details: vec![DetailGroup {
            title: "Signal".into(),
            fields: vec![DetailField { label: "RSSI".into(), value: "-7.4 dBFS".into() }],
        }],
    })));

    let text = popup_text(&a);
    for needle in ["SELFLT", "N12345", "Position & motion", "Signal", "RSSI", "452 kt"] {
        assert!(text.contains(needle), "popup missing {needle:?}: {text}");
    }
    assert!(text.contains("  Vertical rate   +1200 fpm ↑"));
    assert!(text.contains("PgUp/PgDn scroll"));
}

#[test]
fn popup_shows_left_the_area() {
    let mut a = app(vec![flight("present", "PRESENT", 3.0, 0.0)], None);
    a.selected_hex = Some("ghost".into());
    a.mode = Mode::Detail;
    a.detail = Some(DetailView::LeftArea);
    let text = popup_text(&a);
    assert!(text.contains("flight left the area"), "expected the left-the-area notice");
}

#[test]
fn popup_says_loading_and_errors() {
    let mut a = app(vec![], None);
    assert!(popup_text(&a).contains("— loading… —"));
    a.detail = Some(DetailView::Error("server unreachable: x".into()));
    assert!(popup_text(&a).contains("— server unreachable: x —"));
}

#[test]
fn list_row_badges_a_lost_flight_instead_of_a_stale_cpa() {
    let mut f = flight("lost01", "GHOST", 5.0, 90.0);
    f.state = ContactState::LeftScope;
    let text = text_of(&list_row(&f, &None, 60));
    assert!(text.contains("left scope"), "row should badge the reason: {text:?}");
    assert!(!text.contains("nm/"), "a lost flight shows no live CPA: {text:?}");
}

#[test]
fn a_lost_nearest_is_badged_in_the_status_line() {
    let mut lost = flight("lost01", "GH", 5.0, 90.0);
    lost.state = ContactState::LeftScope;
    let a = app(vec![lost], None);
    let text = text_of_all(&status_lines(&a));
    assert!(
        text.contains("[lost: left scope]"),
        "the nearest line should badge a lost flight"
    );
}

#[test]
fn popup_shows_a_stale_banner_for_a_lost_selected_flight() {
    let lost = || {
        let mut f = flight("sel123", "SELFLT", 3.0, 90.0);
        f.state = ContactState::LostContact;
        f.age_s = num(45.0);
        f
    };
    let mut a = app(vec![lost()], None);
    a.selected_hex = Some("sel123".into());
    a.mode = Mode::Detail;
    a.detail =
        Some(DetailView::Loaded(Box::new(FlightDetail { flight: lost(), details: vec![] })));

    let text = popup_text(&a);
    assert!(text.contains("contact lost"), "popup should show the stale banner: {text:?}");
    assert!(text.contains("SELFLT"), "the last-known detail still shows beneath the banner");
    assert!(text.starts_with("⚠ contact lost — last-known data, 45s ago"));
}

#[test]
fn render_list_row_survives_a_narrow_terminal() {
    let f = flight("aaa111", "TIGHTONE", 3.0, 90.0);
    let text = text_of(&list_row(&f, &None, 16));
    assert!(text.contains("TIGHTONE"), "callsign should survive");
}

#[test]
fn render_list_row_drops_altitude_and_its_trend_glyph_together() {
    let f = flight("aaa111", "TIGHT", 3.0, 90.0);
    let text = text_of(&list_row(&f, &None, 22));
    assert!(text.contains("TIGHT"), "callsign survives");
    assert!(!text.contains("30000"), "altitude is dropped at this width");
    assert!(!text.contains('↑'), "trend glyph must not survive without its altitude");
}

#[test]
fn a_wide_row_shows_every_column() {
    let f = flight("aaa111", "TIGHT", 3.0, 90.0);
    let text = text_of(&list_row(&f, &None, 200));
    assert_eq!(text, "TIGHT    B738   3.0nm 090° 30000ft↑ 452kt ▲ 2nm/120s");
}

#[test]
fn wrapped_rows_counts_wrap_for_long_lines() {
    let rows = |s: String, width: u16| wrapped_rows(&vec![raw(s)], width);
    assert_eq!(rows("short value".into(), 40), 1);
    assert_eq!(rows("".into(), 40), 1);
    assert_eq!(rows("a".repeat(80), 40), 2);
    assert_eq!(rows("a".repeat(81), 40), 3);
    let twenty = "x".repeat(20);
    assert_eq!(rows(format!("{twenty} {twenty}"), 25), 2);
}

#[test]
fn render_fit_groups_drops_whole_groups_keeping_priority_order() {
    let group = |priority: u8, spans: &[&str]| Group {
        priority,
        spans: spans.iter().map(|s| raw(s.to_string())).collect(),
    };
    let groups = vec![group(0, &["aaaa"]), group(2, &["bb", "BB"]), group(1, &["cccc"])];
    assert_eq!(text_of(&fit_groups(groups, 8)), "aaaacccc");
}

#[test]
fn no_group_outlives_a_more_important_one() {
    let group = |priority: u8, text: &str| Group { priority, spans: vec![raw(text.to_string())] };
    let row = |max: u16| {
        let groups = vec![group(0, "aaaa"), group(1, "cccccc"), group(2, "bb")];
        text_of(&fit_groups(groups, max))
    };
    assert_eq!(row(3), "");
    assert_eq!(row(6), "aaaa");
    assert_eq!(row(10), "aaaacccccc");
    assert_eq!(row(12), "aaaaccccccbb");
    let (some, none) = (vec![true, false, false], vec![false, false, false]);
    assert_eq!(fit_widths(&vec![0, 1, 2], &vec![4, 6, 2], 6), some);
    assert_eq!(fit_widths(&vec![0, 1, 2], &vec![4, 6, 2], 3), none);
    // Of equals the earlier one stays.
    assert_eq!(fit_widths(&vec![1, 1], &vec![4, 4], 4), vec![true, false]);
    assert_eq!(fit_widths(&vec![1, 0], &vec![1, 4], 4), vec![false, true]);
}

#[test]
fn a_row_loses_its_columns_in_order() {
    let f = flight("aaa111", "TIGHT", 3.0, 90.0);
    let row = |max: u16| text_of(&list_row(&f, &None, max));
    assert_eq!(row(7), "");
    assert_eq!(row(20), "TIGHT   ");
    assert_eq!(row(28), "TIGHT      3.0nm 090°");
    assert_eq!(row(30), "TIGHT      3.0nm 090° 30000ft↑");
    assert_eq!(row(36), "TIGHT      3.0nm 090° 30000ft↑ 452kt");
    assert_eq!(row(41), "TIGHT    B738   3.0nm 090° 30000ft↑ 452kt");
}

#[test]
fn wide_characters_take_two_columns() {
    let group = |priority: u8, text: &str| Group { priority, spans: vec![raw(text.to_string())] };
    let row = |max: u16| text_of(&fit_groups(vec![group(0, "日本"), group(1, "x")], max));
    assert_eq!(row(4), "日本");
    assert_eq!(row(5), "日本x");
    assert_eq!(row(3), "");
}

#[test]
fn scrolling_stops_at_the_end_of_the_body() {
    let body: Vec<Vec<Styled>> = (0..10).map(|i| vec![raw(format!("line {i}"))]).collect();
    assert_eq!(clamp_scroll(50, &body, 40, 4), 6);
    assert_eq!(clamp_scroll(3, &body, 40, 4), 3);
    assert_eq!(clamp_scroll(3, &body, 40, 20), 0);
}

#[test]
fn the_popup_is_centered() {
    let full = Cells { x: 0, y: 0, width: 120, height: 40 };
    let r = centered_rect(full, 64, 80, 78, 32);
    assert_eq!(r, Cells { x: 22, y: 4, width: 76, height: 32 });
}

#[test]
fn blips_are_coloured_by_their_part() {
    let f = flight("aaa", "A", 3.0, 0.0);
    let some = |hex: &str| Some(hex.to_string());
    assert_eq!(blip_color(&f, &some("aaa"), &some("aaa"), &some("aaa")), Color::White);
    assert_eq!(blip_color(&f, &some("aaa"), &some("aaa"), &None), Color::LightRed);
    assert_eq!(blip_color(&f, &some("aaa"), &None, &None), Color::Cyan);
    assert_eq!(blip_color(&f, &None, &None, &None), Color::Green);
    let lost = Flight { state: ContactState::Landed, ..flight("aaa", "A", 3.0, 0.0) };
    assert_eq!(blip_color(&lost, &some("aaa"), &some("aaa"), &None), Color::DarkGray);
    assert_eq!(radar_label(&lost, &some("aaa"), &None, &None).unwrap().text, "A ✕");
    assert!(radar_label(&f, &None, &None, &None).is_none());
}

// The radar's configuration and its server.

#[test]
fn defaults_point_at_the_standard_loopback_server() {
    let cfg = flights::tui::config::Config::default();
    assert_eq!(cfg.server.url, "http://127.0.0.1:7878");
    assert_eq!(cfg.render.fps, 4);
}

#[test]
fn render_interval_follows_fps() {
    let mut cfg = flights::tui::config::Config::default();
    cfg.render.fps = 4;
    assert_eq!(cfg.render_interval(), Span::from_millis(250));
    cfg.render.fps = 60;
    let expected = std::time::Duration::from_secs_f64(1.0 / 60.0).as_nanos();
    assert_eq!(cfg.render_interval().nanos, expected);
}

#[test]
fn a_frame_takes_its_part_of_a_second() {
    let mut cfg = flights::tui::config::Config::default();
    let rates = (0..10_000u32)
        .chain((5..32).flat_map(|k| [(1u32 << k) - 1, 1 << k, (1 << k) + 1, 5 << (k - 3)]))
        .chain([999_999_937, 2_000_000_000, 4_000_000_000, u32::MAX]);
    for fps in rates {
        cfg.render.fps = fps;
        let secs = 1.0 / f64::from(fps.max(1));
        let expected = std::time::Duration::from_secs_f64(secs).as_nanos();
        assert_eq!(cfg.render_interval().nanos, expected, "at {fps}");
    }
    cfg.render.fps = 5120;
    assert_eq!(cfg.render_interval().nanos, 195_313);
}

#[test]
fn a_frame_rate_out_of_bounds_is_clamped_with_a_warning() {
    let mut cfg = flights::tui::config::Config::default();
    cfg.render.fps = 240;
    let (cfg, warnings) = cfg.finalize();
    assert_eq!(cfg.render.fps, 60);
    assert_eq!(warnings, vec!["render.fps 240 out of [1, 60]; clamping to 60"]);
    let (_, warnings) = flights::tui::config::Config::default().finalize();
    assert!(warnings.is_empty());
}

#[test]
fn a_reply_means_what_its_status_says() {
    let c = Client::new("http://127.0.0.1:7878//".into());
    assert_eq!(c.base_url(), "http://127.0.0.1:7878");
    assert_eq!(c.url("/picture"), "http://127.0.0.1:7878/picture");
    assert_eq!(c.flight_url("abc"), "http://127.0.0.1:7878/flight/abc");
    let reply = |status: u16| Fetched::Reply { status, body: Ok(7) };
    assert_eq!(resolve(reply(200)), Ok(7));
    assert_eq!(resolve(reply(404)), Err(ClientError::Status(404)));
    assert_eq!(resolve_flight(reply(404)), Ok(None));
    assert_eq!(resolve_flight(reply(204)), Ok(Some(7)));
    assert_eq!(resolve_flight(reply(500)), Err(ClientError::Status(500)));
    let garbled: Fetched<i32> = Fetched::Reply { status: 200, body: Err("eof".into()) };
    assert_eq!(resolve(garbled), Err(ClientError::Decode("eof".into())));
    let nothing: Fetched<i32> = Fetched::Nothing("refused".into());
    assert_eq!(resolve(nothing).unwrap_err().message(), "server unreachable: refused");
    assert_eq!(ClientError::Decode("eof".into()).message(), "decode error: eof");
    assert!(try_again(3));
    assert!(!try_again(4));
}

// The status module.

fn near(distance_nm: f64) -> Flight {
    Flight {
        registration: Some("EI-DWX".into()),
        operator: Some("RYANAIR".into()),
        altitude_ft: Some(num(37000.0)),
        groundspeed_kt: Some(num(421.0)),
        track_deg: Some(num(197.0)),
        age_s: num(1.8),
        cpa: Some(Cpa { time_to_cpa_s: num(97.0), cpa_distance_nm: num(1.8) }),
        ..flight("abc123", "RYR4GH", distance_nm, 45.0)
    }
}

fn resp(health: Health, flight: Option<Flight>) -> NearestResponse {
    NearestResponse {
        as_of: num(1_780_000_000.0),
        health,
        snapshot_age_s: Some(num(1.8)),
        flight,
    }
}

#[test]
fn empty_sky_collapses_the_module() {
    let bar = build(&resp(Health::Live, None), &num(35.0));
    assert_eq!(bar, Bar::empty());
    assert!(bar.text.is_empty(), "empty text so Waybar collapses it");
}

#[test]
fn a_flight_beyond_the_display_range_collapses_the_module() {
    let bar = build(&resp(Health::Live, Some(near(50.0))), &num(35.0));
    assert_eq!(bar, Bar::empty());
    let edge = build(&resp(Health::Live, Some(near(35.0))), &num(35.0));
    assert!(!edge.text.is_empty());
}

#[test]
fn a_flight_within_range_shows_the_rich_bar_line() {
    let bar = build(&resp(Health::Live, Some(near(3.1))), &num(35.0));
    for needle in ["RYR4GH", "B738", "3.1nm", "045°", "37000ft", "↑"] {
        assert!(bar.text.contains(needle), "bar text missing {needle:?}: {:?}", bar.text);
    }
    assert_eq!(bar.class, "");
}

#[test]
fn the_bar_line_drops_fields_the_source_omits() {
    let mut f = near(3.1);
    f.aircraft_type = None;
    f.altitude_ft = None;
    f.vertical_trend = VerticalTrend::Unknown;
    let bar = build(&resp(Health::Live, Some(f)), &num(35.0));
    assert_eq!(bar.text, "✈ RYR4GH 3.1nm 045°", "degraded line: {:?}", bar.text);
}

#[test]
fn tooltip_carries_alt_spd_trk_vr() {
    let bar = build(&resp(Health::Live, Some(near(3.1))), &num(35.0));
    for needle in ["Alt 37000 ft", "Spd 421 kt", "Trk 197°", "Vr +1200 fpm"] {
        assert!(bar.tooltip.contains(needle), "tooltip missing {needle:?}: {:?}", bar.tooltip);
    }
    assert!(bar.tooltip.contains("CPA 1.8 nm in 97s"));
}

#[test]
fn a_lost_nearest_is_badged_not_dropped() {
    let mut f = near(3.1);
    f.state = ContactState::LostContact;
    f.age_s = num(45.0);
    let bar = build(&resp(Health::Live, Some(f)), &num(35.0));
    assert!(bar.text.contains("RYR4GH"));
    assert_eq!(bar.class, "lost");
    assert!(bar.tooltip.contains("contact lost"), "stale banner: {:?}", bar.tooltip);
}

#[test]
fn a_lost_flight_shows_no_live_cpa() {
    let mut f = near(3.1);
    f.state = ContactState::LeftScope;
    let bar = build(&resp(Health::Live, Some(f)), &num(35.0));
    assert!(!bar.tooltip.contains("CPA"), "frozen CPA must not read as live: {:?}", bar.tooltip);
    assert!(bar.tooltip.contains("left the Search area"));
}

#[test]
fn a_stale_picture_classes_stale_over_lost() {
    let mut f = near(3.1);
    f.state = ContactState::LostContact;
    let bar = build(&resp(Health::Stale, Some(f)), &num(35.0));
    assert_eq!(bar.class, "stale");
}

#[test]
fn no_data_is_an_error_stub_not_an_empty_sky() {
    let bar = build(&resp(Health::NoData, None), &num(35.0));
    assert_eq!(bar.class, "error");
    assert!(!bar.text.is_empty(), "the stub is visible, unlike an empty sky");
}

#[test]
fn an_unreachable_server_renders_the_error_stub() {
    let outcome = Err(ClientError::Unreachable("connection refused".into()));
    let bar = render(&outcome, &num(35.0));
    assert_eq!(bar.class, "error");
    assert!(bar.tooltip.contains("connection refused"));
}

#[test]
fn an_anonymous_flight_falls_back_to_its_hex() {
    let mut f = near(3.1);
    f.ident = None;
    let bar = build(&resp(Health::Live, Some(f)), &num(35.0));
    assert!(bar.text.contains("[abc123]"), "bracketed hex: {:?}", bar.text);
}

#[test]
fn pango_metacharacters_are_escaped() {
    let mut f = near(3.1);
    f.operator = Some("M & N <Air>".into());
    let bar = build(&resp(Health::Live, Some(f)), &num(35.0));
    assert!(bar.tooltip.contains("M &amp; N &lt;Air&gt;"), "escaped: {:?}", bar.tooltip);
    assert!(!bar.tooltip.contains("M & N"), "no bare ampersand reaches Pango");
}

#[test]
fn defaults_point_at_the_standard_loopback_server_and_35nm_range() {
    let cfg = flights::waybar::config::Config::default();
    assert_eq!(cfg.server.url, "http://127.0.0.1:7878");
    assert_eq!(val(cfg.display.range_nm), 35.0);
}

#[test]
fn a_range_that_is_no_distance_falls_back() {
    let mut cfg = flights::waybar::config::Config::default();
    cfg.display.range_nm = num(-3.0);
    let (cfg, warnings) = cfg.finalize("-3");
    assert_eq!(val(cfg.display.range_nm), 35.0);
    assert_eq!(
        warnings,
        vec!["display.range_nm -3 is not a positive distance; using the 35 nm default"]
    );
    let mut cfg = flights::waybar::config::Config::default();
    cfg.display.range_nm = num(12.5);
    let (cfg, warnings) = cfg.finalize("12.5");
    assert_eq!(val(cfg.display.range_nm), 12.5);
    assert!(warnings.is_empty());
}

// The page.

#[test]
fn empty_query_is_all_defaults() {
    let cfg = web::config::WebConfig::from_query("");
    assert_eq!(cfg.server_url, "http://127.0.0.1:7878");
    assert_eq!(cfg.fps, web::config::DEFAULT_FPS);
}

#[test]
fn reads_server_and_fps() {
    let cfg = web::config::WebConfig::from_query("?server=http://10.0.0.2:9000&fps=30");
    assert_eq!(cfg.server_url, "http://10.0.0.2:9000");
    assert_eq!(cfg.fps, 30);
}

#[test]
fn leading_question_mark_is_optional() {
    assert_eq!(web::config::WebConfig::from_query("fps=15").fps, 15);
}

#[test]
fn trailing_slashes_are_trimmed_from_server() {
    assert_eq!(
        web::config::WebConfig::from_query("?server=http://host:7878/").server_url,
        "http://host:7878"
    );
}

#[test]
fn fps_is_clamped_to_1_through_60() {
    assert_eq!(web::config::WebConfig::from_query("?fps=0").fps, 1);
    assert_eq!(web::config::WebConfig::from_query("?fps=1").fps, 1);
    assert_eq!(web::config::WebConfig::from_query("?fps=60").fps, 60);
    assert_eq!(web::config::WebConfig::from_query("?fps=1000").fps, 60);
}

#[test]
fn malformed_or_empty_values_fall_back_to_defaults() {
    let cfg = web::config::WebConfig::from_query("?fps=fast&server=");
    assert_eq!(cfg.fps, web::config::DEFAULT_FPS);
    assert_eq!(cfg.server_url, "http://127.0.0.1:7878");
}

#[test]
fn unknown_keys_and_valueless_pairs_are_skipped() {
    let cfg = web::config::WebConfig::from_query("?foo=bar&flag&fps=10");
    assert_eq!(cfg.fps, 10);
    assert_eq!(cfg.server_url, "http://127.0.0.1:7878");
}

#[test]
fn frame_ms_is_integer_division_of_one_second() {
    let with_fps = |fps: u32| web::config::WebConfig { fps, ..web::config::WebConfig::default() };
    assert_eq!(with_fps(4).frame_ms(), 250);
    assert_eq!(with_fps(60).frame_ms(), 16);
    assert_eq!(with_fps(1).frame_ms(), 1000);
}

#[test]
fn a_late_reply_does_not_overwrite_another_selection() {
    let mut a = web::app::App::new();
    assert!(a.needs_meta());
    a.on_meta(Err(web::client::ApiError::Status(500)));
    assert!(a.needs_meta());
    a.on_meta(Ok(meta("testsrc")));
    assert!(!a.needs_meta());
    a.on_picture(Ok(response(vec![named("a", 1.0), named("b", 2.0)], None)));
    assert_eq!(a.on_key("Enter").as_deref(), Some("a"));
    assert_eq!(a.on_key("ArrowDown").as_deref(), Some("b"));
    let detail = |hex: &str| Ok(Some(FlightDetail { flight: named(hex, 1.0), details: vec![] }));
    a.on_detail(&"a".to_string(), detail("a"));
    assert!(matches!(a.detail, Some(web::app::DetailView::Loading)));
    a.on_detail(&"b".to_string(), detail("b"));
    match &a.detail {
        Some(web::app::DetailView::Loaded(d)) => assert_eq!(d.flight.hex, "b"),
        _ => panic!("expected the detail of b"),
    }
    a.on_picture(Ok(response(vec![named("a", 1.0)], None)));
    assert!(matches!(a.detail, Some(web::app::DetailView::LeftArea)));
    assert_eq!(a.on_key("Escape"), None);
    assert_eq!(a.mode, web::app::Mode::Radar);
    assert_eq!(a.selected.as_deref(), Some("b"));
    assert_eq!(a.on_key("Escape"), None);
    assert_eq!(a.selected, None);
    assert_eq!(a.on_key("k"), None);
    assert_eq!(a.selected.as_deref(), Some("a"));
    assert_eq!(a.on_key("x"), None);
    a.close();
    a.on_picture(Err(web::client::ApiError::Unreachable("TypeError".into())));
    match &a.conn {
        web::app::Conn::Down(e) => assert_eq!(e, "server unreachable: TypeError"),
        _ => panic!("expected the failure"),
    }
}

#[test]
fn the_page_shows_its_state() {
    let mut a = web::app::App::new();
    let s = web::panel::status(&a.meta, &a.picture, &a.conn, &a.selected);
    assert_eq!((s.source.as_str(), s.state.as_str()), ("—", "[CONNECTING]"));
    assert_eq!(s.counts, "  0 flights · —");
    assert_eq!(s.nearest, "nearest  (none)");
    assert_eq!(s.pacing, "pacing   quiet — backing off");
    assert_eq!(s.relevance, "relevance —");
    assert_eq!(s.selected, None);
    a.on_meta(Ok(meta("testsrc")));
    a.on_picture(Ok(response(vec![flight("aaa", "ALPHA", 3.0, 0.0)], Some("aaa"))));
    a.on_key("j");
    let s = web::panel::status(&a.meta, &a.picture, &a.conn, &a.selected);
    assert_eq!((s.source.as_str(), s.state.as_str()), ("testsrc", "[LIVE]"));
    assert_eq!(s.state_color, web::display::COL_APPROACH);
    assert_eq!(s.counts, "  1 flights · 1s ago");
    assert_eq!(s.nearest, "nearest  ALPHA B738 — 3.0 nm @ 000° (30000 ft)");
    assert_eq!(s.pacing, "pacing   ALPHA — CPA 2.0 nm in 120s");
    assert_eq!(s.relevance, "relevance 30nm");
    assert_eq!(
        s.selected.as_deref(),
        Some("sel ALPHA · BOEING 737-800  0.050, 0.000  (0s old)")
    );
    a.on_picture(Err(web::client::ApiError::Decode("eof".into())));
    let s = web::panel::status(&a.meta, &a.picture, &a.conn, &a.selected);
    assert_eq!(s.state, "[UNREACHABLE]");
    assert_eq!(s.error.as_deref(), Some("! decode error: eof"));
}

#[test]
fn the_page_lists_the_flights() {
    let mut far = flight("bbb", "BRAVO", 24.05, 7.4);
    far.ident = None;
    far.altitude_ft = None;
    far.groundspeed_kt = None;
    far.aircraft_type = None;
    far.cpa = None;
    let p = Some(response(vec![flight("aaa", "ALPHA", 3.0, 0.0), far], Some("aaa")));
    assert_eq!(web::panel::list_title(&p), "flights · 2");
    assert_eq!(web::panel::list_title(&None), "flights · 0");
    let rows = web::panel::list_rows(&p, &Some("bbb".to_string()));
    assert_eq!(rows.len(), 2);
    assert_eq!(rows[0].ident_class, "cell ident pacing");
    assert_eq!(rows[0].row_class, "flight-row");
    assert_eq!(rows[0].pos, "3.0nm 000°");
    assert_eq!((rows[0].alt.as_str(), rows[0].glyph), ("30000ft", "↑"));
    assert_eq!(rows[0].gs, "452kt");
    assert_eq!((rows[0].arrow, rows[0].cpa.as_str()), ("▲", "2nm/120s"));
    assert_eq!(rows[1].name, "[bbb]");
    assert_eq!(rows[1].ident_class, "cell ident anon");
    assert_eq!(rows[1].row_class, "flight-row selected");
    assert_eq!((rows[1].alt.as_str(), rows[1].gs.as_str()), ("?", ""));
    assert_eq!((rows[1].arrow, rows[1].arrow_color), ("·", web::display::COL_ANON));
}

#[test]
fn the_overlay_shows_what_there_is() {
    let mode = web::app::Mode::Detail;
    assert!(web::detail::overlay(web::app::Mode::Radar, &None).is_none());
    let notice = |view: Option<web::app::DetailView>| match web::detail::overlay(mode, &view) {
        Some(web::detail::Overlay::Notice(n)) => n,
        _ => panic!("expected a notice"),
    };
    assert_eq!(notice(None), "— loading… —");
    assert_eq!(notice(Some(web::app::DetailView::Loading)), "— loading… —");
    assert_eq!(notice(Some(web::app::DetailView::LeftArea)), "— flight left the area —");
    assert_eq!(notice(Some(web::app::DetailView::Error("x".into()))), "— x —");
    let mut f = named("a", 1.0);
    f.vertical_rate_fpm = None;
    let loaded = web::app::DetailView::Loaded(Box::new(FlightDetail { flight: f, details: vec![] }));
    match web::detail::overlay(mode, &Some(loaded)) {
        Some(web::detail::Overlay::Entries(all)) => {
            assert_eq!(all[0].label, "A");
            let trend = all.iter().find(|e| e.label == "Vertical trend").unwrap();
            assert_eq!(trend.value, "↑");
        }
        _ => panic!("expected the entries"),
    }
}

#[test]
fn the_page_asks_its_server() {
    let c = web::client::ApiClient::new("http://host:7878/".into());
    assert_eq!(c.meta(), "http://host:7878/meta");
    assert_eq!(c.picture(), "http://host:7878/picture");
    assert_eq!(c.flight("abc"), "http://host:7878/flight/abc");
    let gone: Fetched<i32> = Fetched::Reply { status: 404, body: Err("".into()) };
    assert_eq!(web::client::resolve_flight(gone), Ok(None));
    let bad: Fetched<i32> = Fetched::Reply { status: 500, body: Err("".into()) };
    assert_eq!(web::client::resolve(bad), Err(web::client::ApiError::Status(500)));
    assert_eq!(web::client::ApiError::Status(500).message(), "unexpected HTTP status 500");
    let f = flight("aaa", "A", 3.0, 0.0);
    let some = Some("aaa".to_string());
    assert_eq!(web::display::blip_color(&f, &None, &None, &some), "#f5f6f7");
    assert_eq!(web::display::blip_color(&f, &some, &None, &None), "#5fd7ff");
    assert_eq!(web::display::trend_glyph(VerticalTrend::Descend), ("↓", "#5fd7ff"));
}

// The command lines.

fn words(args: &[&str]) -> Vec<String> {
    args.iter().map(|s| s.to_string()).collect()
}

fn read(args: &[&str]) -> Vec<Word> {
    args.iter()
        .map(|s| {
            let n = s.parse::<f64>().ok();
            Word {
                text: s.to_string(),
                number: n.map(num),
                number_text: n.map(|x| x.to_string()).unwrap_or_default(),
            }
        })
        .collect()
}

#[test]
fn modes_do_not_mix() {
    let a = parse_args(Program::Server, &words(&["--once", "--once", "--config", "a.toml"]));
    let a = a.unwrap();
    assert_eq!(a.mode, RunMode::Once);
    assert_eq!(a.config_path.as_deref(), Some("a.toml"));
    let e = parse_args(Program::Server, &words(&["--once", "--serve"])).unwrap_err();
    assert_eq!(e, "only one mode may be given");
    let e = parse_args(Program::Server, &words(&["--tui"])).unwrap_err();
    assert_eq!(e, "unknown argument: --tui");
    assert_eq!(parse_args(Program::Server, &words(&[])).unwrap().mode, RunMode::Serve);
    assert_eq!(parse_args(Program::Standalone, &words(&[])).unwrap().mode, RunMode::Tui);
    let e = parse_args(Program::Server, &words(&["--cors-allow-origin"])).unwrap_err();
    assert_eq!(e, "--cors-allow-origin requires an origin");
    let e = parse_args(Program::Standalone, &words(&["--config"])).unwrap_err();
    assert_eq!(e, "--config requires a path");
}

#[test]
fn the_radar_reads_its_command_line() {
    let a = parse_tui_args(&words(&["--server", "http://x", "-h"])).unwrap();
    assert_eq!(a.server.as_deref(), Some("http://x"));
    assert!(a.help);
    assert_eq!(parse_tui_args(&words(&["--server"])).unwrap_err(), "--server requires a URL");
    assert_eq!(parse_tui_args(&words(&["-x"])).unwrap_err(), "unknown argument: -x");
}

#[test]
fn the_status_module_reads_its_command_line() {
    let a = parse_waybar_args(&read(&["--display-range", "12.5", "--config", "c"])).unwrap();
    assert_eq!(a.display_range, Some(num(12.5)));
    assert_eq!(a.config_path.as_deref(), Some("c"));
    let e = parse_waybar_args(&read(&["--display-range", "fa\"r"])).unwrap_err();
    assert_eq!(e, "--display-range expects a number, got \"fa\\\"r\"");
    let e = parse_waybar_args(&read(&["--display-range", "-1"])).unwrap_err();
    assert_eq!(e, "--display-range must be a positive distance, got -1");
    let e = parse_waybar_args(&read(&["--display-range"])).unwrap_err();
    assert_eq!(e, "--display-range requires a distance in nm");
}
