use ground_station::adsb::{
    airport, build_approach_alert, build_trial_alert, build_voice_text, check_approach, closest,
    describe_alert, fetch_aircraft_photo, fetch_flight_route, generate_candidate_data_urls,
    merge_candidates, parse_altitude_m, parse_hexdb_route, parse_planespotters_photo,
    photo_from_json, photo_query, plan_photo, plan_route, poll_interval_secs, remember,
    route_from_json, route_query, sample_alert, AdsbCache, AircraftPhotoMeta, AircraftRecord,
    EndpointSearch, FlightRoute, MonitorTimers, PhotoLookup, RouteLookup,
};
use ground_station::binary64::Binary64;
use ground_station::config::AdsbConfig;
use ground_station::json::{parse_json, Json};
use ground_station::monitor::{
    describe_radar, Monitor, MonitorAction, MonitorEvent, MonitorPhase, Reply, Sighting,
};

fn d(x: f64) -> Binary64 {
    Binary64::from_bits(x.to_bits()).unwrap()
}

fn num(s: &str) -> Json {
    parse_json(s).unwrap()
}

fn record(hex: &str, alt: Json) -> AircraftRecord {
    AircraftRecord {
        hex: hex.to_string(),
        flight: Some("ANA247  ".to_string()),
        alt_baro: Some(alt),
        gs: Some(d(420.5)),
        track: Some(d(245.0)),
        lat: Some(d(35.795)),
        lon: Some(d(139.260)),
        seen: Some(d(0.2)),
    }
}

fn config() -> AdsbConfig {
    AdsbConfig {
        enabled: true,
        data_url: "http://localhost:8080/data/aircraft.json".to_string(),
        tar1090_url: "http://radar/".to_string(),
        poll_interval_secs: 0,
        max_distance_km: d(8.0),
        min_altitude_m: d(300.0),
        max_altitude_m: d(12_000.0),
        cooldown_minutes: 30,
        fetch_routes: true,
        fetch_photos: true,
        discord_alert: true,
        voice_alert: true,
    }
}

fn route() -> FlightRoute {
    FlightRoute {
        callsign: "ANA247".to_string(),
        origin_iata: Some("HND".to_string()),
        origin_name: Some("Haneda".to_string()),
        destination_iata: Some("FUK".to_string()),
        destination_name: None,
    }
}

fn photo() -> AircraftPhotoMeta {
    AircraftPhotoMeta {
        thumbnail_large: "http://p".to_string(),
        photographer: "X".to_string(),
        aircraft_type: Some("B788".to_string()),
        airline_name: Some("ANA".to_string()),
    }
}

#[test]
fn test_parse_altitude_meters() {
    let val_num = parse_json("10000").unwrap();
    assert_eq!(parse_altitude_m(&val_num), Some(d(3048.0)));
    let val_ground = parse_json("\"ground\"").unwrap();
    assert_eq!(parse_altitude_m(&val_ground), Some(d(0.0)));
    let val_null = Json::Null;
    assert_eq!(parse_altitude_m(&val_null), None);
}

#[test]
fn altitudes_in_every_notation() {
    for (text, feet) in [("17000", 17_000.0), ("-100.5", -100.5), ("1e3", 1e3), ("1.5e-3", 1.5e-3),
        ("1e-20", 1e-20), ("1e308", 1e308), ("5e-324", 5e-324), ("-0.1", -0.1)] {
        assert_eq!(parse_altitude_m(&num(text)), Some(d(feet * 0.3048)));
    }
    assert_eq!(parse_altitude_m(&num("1e16")), Some(d(3.048e15)));
    assert_eq!(parse_altitude_m(&num("18446744073709551615")), Some(d(u64::MAX as f64 * 0.3048)));
    assert_eq!(parse_altitude_m(&num("0e400")), Some(d(0.0)));
    assert_eq!(parse_altitude_m(&Json::Number("x".to_string(), None)), None);
    assert_eq!(parse_altitude_m(&Json::Number("x".to_string(), Some(f64::NAN.to_bits()))), None);
    assert_eq!(parse_altitude_m(&Json::Text("GROUND".to_string())), Some(d(0.0)));
    assert_eq!(parse_altitude_m(&Json::Text("air".to_string())), None);
    assert_eq!(parse_altitude_m(&Json::Bool(true)), None);
    assert_eq!(parse_altitude_m(&parse_json("1234.5").unwrap()), Some(d(376.2756)));
}

#[test]
fn test_aircraft_json_deserialization() {
    let ac1 = record("86786c", num("17000"));
    assert_eq!(ac1.hex, "86786c");
    assert_eq!(ac1.clean_callsign().as_deref(), Some("ANA247"));
    assert_eq!(ac1.lat, Some(d(35.795)));
    assert_eq!(ac1.lon, Some(d(139.260)));
    assert_eq!(ac1.altitude_m(), Some(d(17000.0 * 0.3048)));
    assert_eq!(ac1.speed_kmh(), Some(d(420.5 * 1.852)));
    let ac2 = AircraftRecord {
        hex: "8412ab".to_string(),
        flight: None,
        alt_baro: Some(Json::Text("ground".to_string())),
        gs: None,
        track: None,
        lat: None,
        lon: None,
        seen: Some(d(15.0)),
    };
    assert_eq!(ac2.hex, "8412ab");
    assert_eq!(ac2.clean_callsign(), None);
    assert_eq!(ac2.altitude_m(), Some(d(0.0)));
    assert_eq!(ac2.has_position(), false);
    assert_eq!(ac2.display_callsign(), "HEX-8412ab");
    assert_eq!(ac2.speed_kmh(), None);
}

#[test]
fn test_adsb_cache_cooldown_and_state() {
    let mut cache = AdsbCache::new(30);
    let hex = "86786c";
    let dist = d(5.2);
    assert!(cache.should_notify(hex, dist, 0));
    cache.mark_notified(hex, dist, 0);
    assert!(!cache.should_notify(hex, d(4.8), 1));
    assert!(cache.should_notify("8412ab", d(6.0), 1));
    assert!(!cache.should_notify(hex, d(4.8), 30 * 60_000 - 1));
    assert!(cache.should_notify(hex, d(4.8), 30 * 60_000));
}

#[test]
fn cache_forgets_after_an_hour() {
    let mut cache = AdsbCache::new(120);
    cache.mark_notified("a", d(1.0), 0);
    cache.mark_notified("b", d(1.0), 10);
    cache.mark_notified("c", d(1.0), 0);
    cache.cleanup_stale(3_600_000);
    assert!(cache.should_notify("a", d(1.0), 3_600_000));
    assert!(!cache.should_notify("b", d(1.0), 3_600_000));
    assert!(cache.should_notify("c", d(1.0), 3_600_000));
}

#[test]
fn approach_needs_position_height_distance_and_time() {
    let c = config();
    let mut cache = AdsbCache::new(c.cooldown_minutes);
    let ac = record("a", num("10000"));
    assert_eq!(check_approach(&mut cache, &ac, d(8.000001), &c, 0), None);
    assert_eq!(check_approach(&mut cache, &ac, d(8.0), &c, 0), Some(d(3048.0)));
    assert_eq!(check_approach(&mut cache, &ac, d(1.0), &c, 60_000), None);
    assert_eq!(check_approach(&mut cache, &ac, d(1.0), &c, 1_800_000), Some(d(3048.0)));
    let low = record("b", Json::Text("ground".to_string()));
    assert_eq!(check_approach(&mut cache, &low, d(1.0), &c, 0), None);
    let high = record("c", num("60000"));
    assert_eq!(check_approach(&mut cache, &high, d(1.0), &c, 0), None);
    let mut blind = record("d", num("10000"));
    blind.lon = None;
    assert_eq!(check_approach(&mut cache, &blind, d(1.0), &c, 0), None);
}

#[test]
fn test_parse_hexdb_route_json() {
    let json_str = r#"
    {
        "flight": "ANA247",
        "callsign": "ANA247",
        "origin": { "icao": "RJTT", "iata": "HND", "name": "Tokyo Haneda International Airport" },
        "destination": { "icao": "RJFF", "iata": "FUK", "name": "Fukuoka Airport" }
    }
    "#;
    let route = parse_hexdb_route("ANA247", json_str).expect("パース成功");
    assert_eq!(route.callsign, "ANA247");
    assert_eq!(route.origin_iata.as_deref(), Some("HND"));
    assert_eq!(route.destination_iata.as_deref(), Some("FUK"));
}

#[test]
fn routes_need_one_airport_code() {
    let one = r#"{"destination": {"iata": "FUK"}, "origin": {"iata": 5, "name": "N"}}"#;
    let r = parse_hexdb_route("X", one).unwrap();
    assert_eq!(r.origin_iata, None);
    assert_eq!(r.origin_name.as_deref(), Some("N"));
    assert_eq!(parse_hexdb_route("X", r#"{"origin": {"name": "N"}}"#), None);
    assert_eq!(parse_hexdb_route("X", "[1]"), None);
    assert_eq!(parse_hexdb_route("X", "{"), None);
    let doc = Json::Object(vec![(
        "origin".to_string(),
        Json::Object(vec![("iata".to_string(), Json::Text("HND".to_string()))]),
    )]);
    assert_eq!(route_from_json("Y", &doc).unwrap().callsign, "Y");
    assert_eq!(fetch_flight_route("X", false, &Some(one.to_string())), None);
    assert_eq!(fetch_flight_route("X", true, &None), None);
    assert!(fetch_flight_route("X", true, &Some(one.to_string())).is_some());
    assert_eq!(route_query("ANA247"), "https://hexdb.io/api/v1/route/icao/ANA247");
}

#[test]
fn test_parse_planespotters_photo_json() {
    let json_str = r#"
    {
        "photos": [
            {
                "id": "12345",
                "thumbnail_large": { "src": "https://cdn.planespotters.net/photo/123.jpg" },
                "link": "https://www.planespotters.net/photo/123",
                "photographer": "John Doe",
                "aircraft_type": "Boeing 787-8 Dreamliner",
                "airline": { "name": "All Nippon Airways" }
            }
        ]
    }
    "#;
    let photo = parse_planespotters_photo(json_str).expect("パース成功");
    assert_eq!(photo.thumbnail_large, "https://cdn.planespotters.net/photo/123.jpg");
    assert_eq!(photo.photographer, "John Doe");
    assert_eq!(photo.aircraft_type.as_deref(), Some("Boeing 787-8 Dreamliner"));
    assert_eq!(photo.airline_name.as_deref(), Some("All Nippon Airways"));
}

#[test]
fn photos_need_an_address() {
    let bare = r#"{"photos": [{"thumbnail_large": {"src": "u"}}, {"x": 1}]}"#;
    let p = fetch_aircraft_photo(true, &Some(bare.to_string())).unwrap();
    assert_eq!(p.photographer, "Unknown Photographer");
    assert_eq!(p.aircraft_type, None);
    assert_eq!(fetch_aircraft_photo(false, &Some(bare.to_string())), None);
    assert_eq!(parse_planespotters_photo(r#"{"photos": []}"#), None);
    assert_eq!(parse_planespotters_photo(r#"{"photos": {}}"#), None);
    assert_eq!(parse_planespotters_photo(r#"{"photos": [{"photographer": "A"}]}"#), None);
    assert_eq!(photo_from_json(&Json::Null), None);
    assert_eq!(photo_query("86786c"), "https://api.planespotters.net/pub/photos/hex/86786c");
}

#[test]
fn candidates_come_from_the_given_address() {
    assert_eq!(
        generate_candidate_data_urls("http://pi:8080/data/aircraft.json?x=1"),
        [
            "http://pi:8080/data/aircraft.json?x=1",
            "http://pi:8080/tar1090/data/aircraft.json?x=1",
            "http://pi:8080/aircraft.json?x=1",
            "http://pi:8080/run/readsb/aircraft.json?x=1"
        ]
    );
    assert_eq!(generate_candidate_data_urls("http://pi").len(), 5);
    assert_eq!(generate_candidate_data_urls("not a url"), ["not a url"]);
    let found = vec![None, Some("b".to_string()), Some("a".to_string()), Some("b".to_string())];
    assert_eq!(merge_candidates("a", &found), ["a", "b"]);
}

#[test]
fn endpoint_search_tries_the_last_one_first() {
    let mut search = EndpointSearch::new("http://pi");
    assert_eq!(search.urls_to_try(), search.candidates);
    let third = search.candidates[3].clone();
    search.conclude(Some(third.clone()));
    let round = search.urls_to_try();
    assert_eq!(round[0], third);
    assert_eq!(round.len(), search.candidates.len());
    search.conclude(None);
    assert_eq!(search.urls_to_try(), search.candidates);
}

#[test]
fn lookups_are_remembered() {
    let mut c = config();
    let mut cache = AdsbCache::new(30);
    assert!(matches!(plan_route(&cache, &c, "ANA247"), RouteLookup::Ask(u) if u.ends_with("/ANA247")));
    assert!(matches!(plan_photo(&cache, &c, "a"), PhotoLookup::Ask(_)));
    remember(&mut cache, &c, "ANA247", "a", &Some(route()), &None);
    assert!(matches!(plan_route(&cache, &c, "ANA247"), RouteLookup::Known(Some(r)) if r == route()));
    assert!(matches!(plan_photo(&cache, &c, "a"), PhotoLookup::Known(None)));
    assert_eq!(cache.get_route("ANA247"), Some(&Some(route())));
    assert_eq!(cache.get_photo("b"), None);
    c.fetch_routes = false;
    c.fetch_photos = false;
    remember(&mut cache, &c, "Q", "b", &Some(route()), &Some(photo()));
    assert_eq!(cache.get_route("Q"), None);
    assert_eq!(cache.get_photo("b"), None);
    assert!(matches!(plan_route(&cache, &c, "ANA247"), RouteLookup::Known(None)));
    cache.set_photo("b", Some(photo()));
    cache.set_route("Q", None);
    assert_eq!(cache.get_photo("b"), Some(&Some(photo())));
    assert_eq!(cache.get_route("Q"), Some(&None));
}

#[test]
fn alerts_are_built_from_what_is_known() {
    let ac = record("86786c", num("10000"));
    let a = build_approach_alert(&ac, d(3048.0), d(5.0), &Some(route()), &Some(photo()), "http://r");
    assert_eq!(a.callsign, "ANA247");
    assert_eq!(a.origin.as_deref(), Some("Haneda (HND)"));
    assert_eq!(a.destination.as_deref(), Some("FUK"));
    assert_eq!(a.airline.as_deref(), Some("ANA"));
    assert_eq!(a.speed_kmh, d(420.5 * 1.852));
    assert_eq!(a.photo_url.as_deref(), Some("http://p"));
    let t = build_trial_alert(&ac, d(5.0), &Some(route()), &None, "http://r");
    assert_eq!(t.origin.as_deref(), Some("HND"));
    assert_eq!(t.altitude_m, d(3048.0));
    assert!(t.photo_url.is_none());
    let mut bare = record("x", Json::Null);
    bare.gs = None;
    let t = build_trial_alert(&bare, d(5.0), &None, &None, "http://r");
    assert_eq!((t.altitude_m, t.speed_kmh), (d(5000.0), d(750.0)));
    let a = build_approach_alert(&bare, d(1.0), d(5.0), &None, &None, "http://r");
    assert_eq!(a.speed_kmh, d(0.0));
    assert_eq!(airport(&Some("N".to_string()), &None).as_deref(), Some("N"));
    assert_eq!(airport(&None, &None), None);
}

#[test]
fn voice_names_route_airline_or_flight() {
    let mut a = sample_alert("u");
    assert_eq!(
        build_voice_text(&a),
        "羽田 (HND)発、福岡 (FUK)行きの全日本空輸ANA247便、Boeing 787-8 Dreamlinerが、高度5200メートルで上空を通過中なのだ！"
    );
    a.origin = None;
    a.altitude_m = d(5199.5);
    assert_eq!(
        build_voice_text(&a),
        "全日本空輸のBoeing 787-8 Dreamliner、ANA247便が、高度5200メートルで上空を通過中なのだ！"
    );
    a.airline = None;
    a.aircraft_type = None;
    a.altitude_m = d(-0.5);
    assert_eq!(build_voice_text(&a), "ANA247便、飛行機が、高度-1メートルで上空を通過中なのだ！");
    a.altitude_m = d(-0.4);
    assert!(build_voice_text(&a).contains("高度0メートル"));
    let lines = describe_alert(&a);
    assert_eq!(lines[3], "  ルート:     不明 ➜ 福岡 (FUK)");
    assert_eq!(lines[5], "  最接近距離: 3.4 km");
    assert_eq!(lines.len(), 7);
}

#[test]
fn closest_is_the_first_of_the_nearest() {
    assert_eq!(closest(&vec![None, Some(d(3.0)), Some(d(2.0)), Some(d(2.0))]), Some(2));
    assert_eq!(closest(&vec![None, None]), None);
}

#[test]
fn timers_of_the_monitor() {
    let mut t = MonitorTimers::start(1000);
    assert!(!t.cleanup_due(601_000));
    assert!(t.cleanup_due(601_001));
    assert!(!t.cleanup_due(601_002));
    assert!(!t.heartbeat_due(30_999));
    assert!(t.heartbeat_due(31_000));
    assert!(t.warning_due(1000));
    assert!(!t.warning_due(30_999));
    assert!(t.warning_due(31_000));
    assert_eq!(poll_interval_secs(&config()), 1);
}

fn sighting(hex: &str, flight: Option<&str>, feet: &str, km: Option<f64>) -> Sighting {
    let mut record = record(hex, num(feet));
    record.flight = flight.map(|f| f.to_string());
    if km.is_none() {
        record.lat = None;
    }
    Sighting { record, distance_km: km.map(d) }
}

fn url_of(action: &MonitorAction) -> &str {
    match action {
        MonitorAction::Fetch { url } => url,
        other => panic!("{:?}", other),
    }
}

#[test]
fn monitor_announces_each_near_aircraft_once() {
    let mut c = config();
    c.voice_alert = false;
    let (mut m, first) = Monitor::start(&c, 0);
    assert!(matches!(first, MonitorAction::Sleep { secs: 1 }));
    let fetch = m.step(MonitorEvent::Done, 1_000, &c);
    assert_eq!(url_of(&fetch), "http://localhost:8080/data/aircraft.json");
    let report = || {
        vec![
            sighting("far", None, "10000", Some(20.0)),
            sighting("a", Some(" ANA247 "), "10000", Some(3.0)),
            sighting("nowhere", None, "10000", None),
            sighting("b", None, "20000", Some(5.0)),
        ]
    };
    let ask = m.step(MonitorEvent::Report { sightings: report() }, 1_100, &c);
    match ask {
        MonitorAction::LookUp { route_url, photo_url } => {
            assert_eq!(route_url.as_deref(), Some("https://hexdb.io/api/v1/route/icao/ANA247"));
            assert_eq!(
                photo_url.as_deref(),
                Some("https://api.planespotters.net/pub/photos/hex/a")
            );
        }
        other => panic!("{:?}", other),
    }
    let route = Reply {
        success: true,
        body: Some("{\"origin\":{\"iata\":\"HND\",\"name\":\"Haneda\"}}".to_string()),
    };
    let said = m.step(MonitorEvent::Replies { route: Some(route), photo: None }, 1_200, &c);
    match said {
        MonitorAction::Announce { alert, discord, speech } => {
            assert_eq!(alert.icao_hex, "a");
            assert_eq!(alert.callsign, "ANA247");
            assert_eq!(alert.origin.as_deref(), Some("Haneda (HND)"));
            assert_eq!(alert.destination, None);
            assert_eq!(alert.photo_url, None);
            assert_eq!(alert.altitude_m, d(3048.0));
            assert_eq!(alert.distance_km, d(3.0));
            assert!(discord);
            assert_eq!(speech, None);
        }
        other => panic!("{:?}", other),
    }
    assert!(matches!(m.step(MonitorEvent::Done, 1_300, &c), MonitorAction::LookUp { .. }));
    assert_eq!(m.phase, MonitorPhase::Looking { at: 3 });
    let said = m.step(MonitorEvent::Replies { route: None, photo: None }, 1_400, &c);
    assert!(matches!(said, MonitorAction::Announce { .. }));
    assert!(matches!(m.step(MonitorEvent::Done, 1_500, &c), MonitorAction::Sleep { .. }));

    m.step(MonitorEvent::Done, 31_000, &c);
    let shown = m.step(MonitorEvent::Report { sightings: report() }, 31_100, &c);
    match shown {
        MonitorAction::Show { line } => assert_eq!(
            line,
            "📡 ADS-B レーダー状況: 捕捉 4 機 (位置確定 3 機) | 最接近: ANA247 (3.0km, 高度 3048m)"
        ),
        other => panic!("{:?}", other),
    }
    assert!(matches!(m.step(MonitorEvent::Done, 31_200, &c), MonitorAction::Sleep { .. }));

    m.step(MonitorEvent::Done, 1_801_100, &c);
    let again = m.step(MonitorEvent::Report { sightings: report() }, 1_801_100, &c);
    assert!(matches!(again, MonitorAction::Show { .. }));
    match m.step(MonitorEvent::Done, 1_801_100, &c) {
        MonitorAction::LookUp { route_url, photo_url } => {
            assert_eq!(route_url, None);
            assert_eq!(photo_url, None);
        }
        other => panic!("{:?}", other),
    }
    match m.step(MonitorEvent::Replies { route: None, photo: None }, 1_801_200, &c) {
        MonitorAction::Announce { alert, .. } => {
            assert_eq!(alert.origin.as_deref(), Some("Haneda (HND)"));
        }
        other => panic!("{:?}", other),
    }
}

#[test]
fn monitor_tries_every_address_and_warns_at_times() {
    let c = config();
    let (mut m, _) = Monitor::start(&c, 0);
    m.step(MonitorEvent::Done, 0, &c);
    let no = |text: &str| MonitorEvent::NoReport { reason: text.to_string() };
    let second = m.step(no("x"), 0, &c);
    assert_eq!(url_of(&second), "http://localhost:8080/tar1090/data/aircraft.json");
    m.step(no("x"), 0, &c);
    let last = m.step(no("x"), 0, &c);
    assert_eq!(url_of(&last), "http://localhost:8080/run/readsb/aircraft.json");
    match m.step(no("HTTP 404"), 0, &c) {
        MonitorAction::Warn { line } => assert_eq!(
            line,
            "⚠️ ADS-B エンドポイントに接続できません (最新試行: HTTP 404)。dump1090 / readsb / Ultrafeeder コンテナが起動しているか確認してください"
        ),
        other => panic!("{:?}", other),
    }
    assert!(matches!(m.step(MonitorEvent::Done, 0, &c), MonitorAction::Sleep { .. }));
    m.step(MonitorEvent::Done, 1_000, &c);
    m.step(no("x"), 1_000, &c);
    let served = m.step(MonitorEvent::Report { sightings: Vec::new() }, 1_000, &c);
    assert!(matches!(served, MonitorAction::Sleep { .. }));
    let fetch = m.step(MonitorEvent::Done, 2_000, &c);
    assert_eq!(url_of(&fetch), "http://localhost:8080/tar1090/data/aircraft.json");
    m.step(no("x"), 2_000, &c);
    m.step(no("x"), 2_000, &c);
    m.step(no("x"), 2_000, &c);
    assert!(matches!(m.step(no("x"), 2_000, &c), MonitorAction::Sleep { .. }));
    assert_eq!(m.search.active, None);
    assert!(matches!(m.step(MonitorEvent::Interrupted, 3_000, &c), MonitorAction::Quit));
    assert_eq!(m.phase, MonitorPhase::Ended);
}

#[test]
fn radar_line_without_positions() {
    assert_eq!(
        describe_radar(&vec![sighting("a", None, "0", None)]),
        "📡 ADS-B レーダー状況: 捕捉 1 機 (位置確定 0 機) | 電波待機中..."
    );
}
