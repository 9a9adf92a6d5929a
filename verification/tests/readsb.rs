//! The readsb feed: what becomes of an aircraft that it describes.

use flights::number::Number;
use flights::server::domain::{DetailGroup, Snapshot, VerticalTrend};
use flights::server::readsb::{
    build_details, classify_status, decode_category, decode_data_type, is_mappable,
    map_transport_error, retry_after, to_snapshot, Altitude, Reply, TransportError, WireAircraft,
};
use flights::server::sources::SourceError;
use flights::span::{Moment, Span};
use serde_json::Value;

fn num(x: f64) -> Number {
    Number { bits: x.to_bits() }
}

fn number(v: &Value, key: &str) -> Option<Number> {
    v.get(key).and_then(Value::as_f64).map(num)
}

fn word(v: &Value, key: &str) -> Option<String> {
    v.get(key).and_then(Value::as_str).map(str::to_string)
}

fn whole(v: &Value, key: &str) -> Option<i64> {
    v.get(key).and_then(Value::as_i64)
}

fn words(v: &Value, key: &str) -> Option<Vec<String>> {
    v.get(key).and_then(Value::as_array).map(|a| {
        a.iter().filter_map(Value::as_str).map(str::to_string).collect()
    })
}

fn altitude(v: &Value, key: &str) -> Option<Altitude> {
    match v.get(key) {
        Some(Value::String(s)) => Some(Altitude::Label(s.clone())),
        Some(n) => n.as_f64().map(|x| Altitude::Feet(num(x))),
        None => None,
    }
}

fn aircraft(v: &Value) -> WireAircraft {
    WireAircraft {
        hex: word(v, "hex").unwrap_or_default(),
        flight: word(v, "flight"),
        t: word(v, "t"),
        desc: word(v, "desc"),
        r: word(v, "r"),
        own_op: word(v, "ownOp"),
        year: word(v, "year"),
        lat: number(v, "lat"),
        lon: number(v, "lon"),
        alt_baro: altitude(v, "alt_baro"),
        alt_geom: altitude(v, "alt_geom"),
        gs: number(v, "gs"),
        track: number(v, "track"),
        baro_rate: number(v, "baro_rate"),
        geom_rate: number(v, "geom_rate"),
        squawk: word(v, "squawk"),
        emergency: word(v, "emergency"),
        category: word(v, "category"),
        nav_qnh: number(v, "nav_qnh"),
        nav_altitude_mcp: number(v, "nav_altitude_mcp"),
        nav_heading: number(v, "nav_heading"),
        nav_modes: words(v, "nav_modes"),
        nic: whole(v, "nic"),
        rc: whole(v, "rc"),
        nic_baro: whole(v, "nic_baro"),
        nac_p: whole(v, "nac_p"),
        nac_v: whole(v, "nac_v"),
        sil: whole(v, "sil"),
        sil_type: word(v, "sil_type"),
        gva: whole(v, "gva"),
        sda: whole(v, "sda"),
        data_type: word(v, "type"),
        version: whole(v, "version"),
        mlat: words(v, "mlat"),
        tisb: words(v, "tisb"),
        alert: whole(v, "alert"),
        spi: whole(v, "spi"),
        messages: whole(v, "messages"),
        seen: number(v, "seen"),
        rssi: number(v, "rssi"),
        seen_pos: number(v, "seen_pos"),
    }
}

fn parse_snapshot(body: &str) -> Result<Snapshot, SourceError> {
    let decoded = serde_json::from_str::<Value>(body).map_err(|e| e.to_string()).map(|v| {
        match v.get("ac") {
            Some(Value::Array(all)) => all.iter().map(aircraft).collect(),
            _ => Vec::new(),
        }
    });
    if let Ok(all) = &decoded {
        assert!(all.iter().all(is_mappable));
    }
    to_snapshot(decoded, Moment { nanos: 7 })
}

fn shown(groups: &[DetailGroup], title: &str, label: &str) -> Option<String> {
    let group = groups.iter().find(|g| g.title == title)?;
    group.fields.iter().find(|(l, _)| l == label).map(|(_, v)| v.clone())
}

#[test]
fn alt_baro_ground_string_routes_hex_to_on_ground() {
    let body = r#"{"ac":[
        {"hex":"aaa","lat":1.0,"lon":2.0,"alt_baro":"ground","gs":5.0},
        {"hex":"bbb","lat":3.0,"lon":4.0,"alt_baro":12000,"alt_geom":12500,"gs":300.0,"track":90.0,"baro_rate":-640,"seen_pos":2.5,"t":"B738","desc":"BOEING 737-800","r":"N1","ownOp":"ACME","squawk":"1200","emergency":"none","category":"A3"}
    ]}"#;
    let snap = parse_snapshot(body).unwrap();
    assert_eq!(snap.flights.len(), 1);
    assert_eq!(snap.on_ground, vec!["aaa".to_string()]);
    assert_eq!(snap.taken_at, Moment { nanos: 7 });
    let f = &snap.flights[0];
    assert_eq!(f.hex, "bbb");
    assert_eq!(f.altitude_ft, Some(num(12000.0)));
    assert_eq!(f.geometric_altitude_ft, Some(num(12500.0)));
    assert_eq!(f.track_deg, Some(num(90.0)));
    assert_eq!(f.reported_age, Span::from_millis(2500));
    assert_eq!(f.aircraft_type.as_deref(), Some("B738"));
    assert_eq!(f.model.as_deref(), Some("BOEING 737-800"));
    assert_eq!(f.registration.as_deref(), Some("N1"));
    assert_eq!(f.operator.as_deref(), Some("ACME"));
    assert_eq!(f.squawk.as_deref(), Some("1200"));
    assert_eq!(f.emergency, None);
    assert_eq!(f.emitter_category.as_deref(), Some("large"));
    assert_eq!(f.vertical_rate_fpm, Some(num(-640.0)));
    assert_eq!(f.vertical_trend(), VerticalTrend::Descend);
}

#[test]
fn alt_baro_ground_string_drops_aircraft() {
    let body = r#"{"ac":[
        {"hex":"aaa","lat":1.0,"lon":2.0,"alt_baro":"ground","gs":5.0},
        {"hex":"bbb","lat":3.0,"lon":4.0,"alt_baro":12000,"gs":300.0,"track":90.0,"seen_pos":2.5,"t":"B738","desc":"BOEING 737-800"}
    ]}"#;
    let snap = parse_snapshot(body).unwrap();
    assert_eq!(snap.flights.len(), 1);
    let f = &snap.flights[0];
    assert_eq!(f.hex, "bbb");
    assert_eq!(f.altitude_ft, Some(num(12000.0)));
    assert_eq!(f.track_deg, Some(num(90.0)));
    assert_eq!(f.reported_age, Span::from_millis(2500));
    assert_eq!(f.aircraft_type.as_deref(), Some("B738"));
    assert_eq!(f.model.as_deref(), Some("BOEING 737-800"));
}

#[test]
fn decode_category_known_and_unknown() {
    assert_eq!(decode_category("A3"), "large");
    assert_eq!(decode_category("A7"), "rotorcraft");
    assert_eq!(decode_category("ZZ"), "ZZ");
}

#[test]
fn vertical_rate_falls_back_to_geometric() {
    let body = r#"{"ac":[
        {"hex":"ccc","lat":1.0,"lon":2.0,"alt_baro":5000,"geom_rate":-512}
    ]}"#;
    let snap = parse_snapshot(body).unwrap();
    let f = &snap.flights[0];
    assert_eq!(f.vertical_rate_fpm, Some(num(-512.0)));
    assert_eq!(f.vertical_trend(), VerticalTrend::Descend);
}

#[test]
fn readsb_missing_type_and_model_are_none() {
    let body = r#"{"ac":[{"hex":"ddd","lat":1.0,"lon":2.0,"alt_baro":9000}]}"#;
    let snap = parse_snapshot(body).unwrap();
    let f = &snap.flights[0];
    assert_eq!(f.aircraft_type, None);
    assert_eq!(f.model, None);
}

#[test]
fn readsb_aircraft_without_position_is_dropped() {
    let body = r#"{"ac":[{"hex":"ccc","alt_baro":30000,"gs":400.0}]}"#;
    let snap = parse_snapshot(body).unwrap();
    assert!(snap.flights.is_empty());
}

#[test]
fn readsb_empty_or_missing_ac_array_is_an_empty_snapshot() {
    assert!(parse_snapshot(r#"{"now":1.0}"#).unwrap().flights.is_empty());
    assert!(parse_snapshot(r#"{"ac":[]}"#).unwrap().flights.is_empty());
}

#[test]
fn readsb_garbage_body_is_a_decode_error() {
    assert!(matches!(parse_snapshot("not json"), Err(SourceError::Decode(_))));
}

#[test]
fn feed_padding_is_trimmed_and_blanks_are_absent() {
    let body = r#"{"ac":[
        {"hex":"a2fee9","flight":"SWA157  ","t":"  ","lat":1.0,"lon":2.0,"emergency":"lifeguard","seen_pos":-3.0},
        {"hex":"b","flight":"   ","lat":1.0,"lon":2.0,"alt_baro":"Ground"},
        {"hex":"c","lat":1.0,"lon":2.0,"alt_baro":"unknown"}
    ]}"#;
    let snap = parse_snapshot(body).unwrap();
    assert_eq!(snap.flights.len(), 2);
    assert_eq!(snap.on_ground, vec!["b".to_string()]);
    assert_eq!(snap.flights[0].ident.as_deref(), Some("SWA157"));
    assert_eq!(snap.flights[0].aircraft_type, None);
    assert_eq!(snap.flights[0].emergency.as_deref(), Some("lifeguard"));
    assert_eq!(snap.flights[0].reported_age, Span { nanos: 0 });
    assert_eq!(snap.flights[1].hex, "c");
    assert_eq!(snap.flights[1].altitude_ft, None);
}

#[test]
fn telemetry_is_grouped_under_its_titles() {
    let body = r#"{"hex":"a2fee9","lat":1.0,"lon":2.0,"messages":32842,"rssi":-15.2,"seen":0.4,
        "nav_qnh":1013.6,"nav_altitude_mcp":36000,"type":"adsb_icao","version":2,
        "mlat":[],"tisb":["geom_rate","track"]}"#;
    let v: Value = serde_json::from_str(body).unwrap();
    let groups = build_details(&aircraft(&v));
    assert_eq!(shown(&groups, "Signal", "Messages").as_deref(), Some("32842"));
    assert_eq!(shown(&groups, "Signal", "RSSI").as_deref(), Some("-15.2 dBFS"));
    assert_eq!(shown(&groups, "Navigation", "QNH").as_deref(), Some("1013.6 hPa"));
    assert_eq!(shown(&groups, "Navigation", "Selected altitude").as_deref(), Some("36000 ft"));
    assert_eq!(shown(&groups, "Provenance", "Data source").as_deref(), Some("ADS-B (ICAO)"));
    assert_eq!(shown(&groups, "Provenance", "ADS-B version").as_deref(), Some("2"));
    assert_eq!(shown(&groups, "Provenance", "MLAT fields"), None);
    assert_eq!(
        shown(&groups, "Provenance", "TIS-B fields").as_deref(),
        Some("geom_rate, track")
    );
    assert!(groups.iter().all(|g| !g.fields.is_empty()));
    let bare: Value = serde_json::from_str(r#"{"hex":"x"}"#).unwrap();
    assert!(build_details(&aircraft(&bare)).is_empty());
}

#[test]
fn unknown_ways_of_deriving_a_position_pass_through() {
    assert_eq!(decode_data_type("mlat"), "MLAT");
    assert_eq!(decode_data_type("something_new"), "something_new");
}

#[test]
fn each_status_is_told_apart() {
    assert!(matches!(classify_status(200), Reply::Body));
    assert!(matches!(classify_status(299), Reply::Body));
    assert!(matches!(classify_status(429), Reply::SlowDown));
    assert!(matches!(classify_status(401), Reply::Failed(SourceError::Auth)));
    assert!(matches!(classify_status(403), Reply::Failed(SourceError::Auth)));
    assert!(matches!(classify_status(503), Reply::Failed(SourceError::Unavailable)));
    match classify_status(302) {
        Reply::Failed(SourceError::Decode(e)) => assert_eq!(e, "unexpected HTTP status 302"),
        other => panic!("expected a decode error, got {other:?}"),
    }
}

#[test]
fn network_failures_may_pass() {
    for e in [
        TransportError::Timeout,
        TransportError::Io,
        TransportError::ConnectionFailed,
        TransportError::HostNotFound,
    ] {
        assert!(matches!(map_transport_error(e), SourceError::Transient));
    }
    match map_transport_error(TransportError::Other("bad uri".into())) {
        SourceError::Decode(e) => assert_eq!(e, "bad uri"),
        other => panic!("expected a decode error, got {other:?}"),
    }
}

#[test]
fn only_a_usable_retry_after_counts() {
    assert_eq!(retry_after(Some(num(12.5))), Some(Span::from_millis(12_500)));
    assert_eq!(retry_after(Some(num(0.0))), Some(Span { nanos: 0 }));
    assert_eq!(retry_after(Some(num(-1.0))), None);
    assert_eq!(retry_after(Some(num(f64::NAN))), None);
    assert_eq!(retry_after(Some(num(f64::INFINITY))), None);
    assert_eq!(retry_after(None), None);
}

#[test]
fn only_the_age_of_a_flight_has_to_be_a_length_of_time() {
    let body = r#"{"ac":[
        {"hex":"a","lat":1.0,"lon":2.0,"alt_baro":"ground","seen_pos":1e300},
        {"hex":"b","alt_baro":3000,"seen_pos":1e300},
        {"hex":"c","lat":1.0,"lon":2.0,"alt_baro":3000,"seen_pos":1.5}]}"#;
    let snap = parse_snapshot(body).unwrap();
    assert_eq!(snap.on_ground, vec!["a".to_string()]);
    assert_eq!(snap.flights.len(), 1);
    assert_eq!(snap.flights[0].hex, "c");
    assert_eq!(snap.flights[0].reported_age, Span::from_millis(1500));
    let absurd = r#"{"hex":"d","lat":1.0,"lon":2.0,"alt_baro":3000,"seen_pos":1e300}"#;
    assert!(!is_mappable(&aircraft(&serde_json::from_str(absurd).unwrap())));
}
