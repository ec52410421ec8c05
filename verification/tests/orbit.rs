use chrono::{DateTime, Duration, TimeZone, Utc};
use ground_station::binary64::Binary64;
use ground_station::config::{
    CubeSatTarget, CubeSatsConfig, IssConfig, NoaaConfig, SatellitesConfig,
};
use ground_station::orbit::{
    azimuth_to_direction, build_satellite_infos_from_db, fetch_all_tles, parse_3line_tles,
    OrbitPredictor, SatelliteInfo, SatellitePass, SignalType,
};
use ground_station::passes::TopoPosition;
use ground_station::tle::{catalog_query, group_queries, needs_query, satellite_targets};
use std::collections::HashMap;

fn d(x: f64) -> Binary64 {
    Binary64::from_bits(x.to_bits()).unwrap()
}

fn ms(t: DateTime<Utc>) -> i64 {
    t.timestamp_millis()
}

fn pass(name: &str, aos: i64, los: i64, el: f64) -> SatellitePass {
    SatellitePass {
        satellite_name: name.to_string(),
        frequency_hz: 137_100_000,
        signal_type: SignalType::Apt,
        aos,
        los,
        max_elevation_deg: d(el),
        peak_azimuth_deg: d(90.0),
    }
}

fn ecef(lat_deg: f64, lon_deg: f64, alt_m: f64) -> [f64; 3] {
    let (lat, lon, alt) = (lat_deg.to_radians(), lon_deg.to_radians(), alt_m / 1000.0);
    let f: f64 = 1.0 / 298.257223563;
    let e2 = f * (2.0 - f);
    let n = 6378.137 / (1.0 - e2 * lat.sin().powi(2)).sqrt();
    [
        (n + alt) * lat.cos() * lon.cos(),
        (n + alt) * lat.cos() * lon.sin(),
        (n * (1.0 - e2) + alt) * lat.sin(),
    ]
}

/// Elevation and azimuth of a satellite over an observer at each sample of a scan.
fn scan(
    line1: &str,
    line2: &str,
    observer: (f64, f64, f64),
    start: DateTime<Utc>,
    hours: u64,
) -> Option<Vec<TopoPosition>> {
    let elements = sgp4::Elements::from_tle(None, line1.as_bytes(), line2.as_bytes()).ok()?;
    let constants = sgp4::Constants::from_elements(&elements).ok()?;
    let obs = ecef(observer.0, observer.1, observer.2);
    let (lat, lon) = (observer.0.to_radians(), observer.1.to_radians());
    let epoch = elements.datetime.and_utc();
    let mut out = Vec::new();
    for i in 0..OrbitPredictor::sample_count(hours) {
        let t = start + Duration::milliseconds(i as i64 * 30_000);
        let minutes = (t - epoch).num_milliseconds() as f64 / 60_000.0;
        let (el, az) = match constants.propagate(sgp4::MinutesSinceEpoch(minutes)) {
            Ok(p) => {
                let days = t.timestamp() as f64 / 86400.0 + 2440587.5 - 2451545.0;
                let gmst =
                    (280.46061837 + 360.98564736629 * days).rem_euclid(360.0).to_radians();
                let (c, s) = (gmst.cos(), gmst.sin());
                let x = c * p.position[0] + s * p.position[1] - obs[0];
                let y = -s * p.position[0] + c * p.position[1] - obs[1];
                let z = p.position[2] - obs[2];
                let east = -lon.sin() * x + lon.cos() * y;
                let north =
                    -lat.sin() * lon.cos() * x - lat.sin() * lon.sin() * y + lat.cos() * z;
                let up = lat.cos() * lon.cos() * x + lat.cos() * lon.sin() * y + lat.sin() * z;
                let range = (x * x + y * y + z * z).sqrt();
                (
                    (up / range).clamp(-1.0, 1.0).asin().to_degrees(),
                    east.atan2(north).to_degrees().rem_euclid(360.0),
                )
            }
            Err(_) => (-90.0, 0.0),
        };
        out.push(TopoPosition { elevation_deg: d(el), azimuth_deg: d(az) });
    }
    Some(out)
}

#[test]
fn orbit_test_test_tle_parsing_and_pass_prediction() {
    let line1 = "1 33591U 09005A   26247.26050863 -.00000003  00000+0  22278-4 0  9994";
    let line2 = "2 33591  98.9457 318.1680 0014124 162.6873 197.4784 14.13484468905655";
    let sat = SatelliteInfo {
        name: "NOAA 19".to_string(),
        norad_id: 33591,
        frequency_hz: 137_100_000,
        signal_type: SignalType::Apt,
        line1: line1.to_string(),
        line2: line2.to_string(),
    };
    let start = Utc.with_ymd_and_hms(2026, 9, 3, 15, 0, 0).unwrap();
    let samples = scan(line1, line2, (35.7903, 139.2584, 200.0), start, 24)
        .expect("パス計算に失敗しました");
    let found =
        OrbitPredictor::predict_passes_for_satellite(&sat, &samples, ms(start), 24, d(15.0));
    let passes = OrbitPredictor::predict_all_passes(vec![Some(found)]);
    assert!(!passes.is_empty(), "24時間以内に少なくとも1回のパスが検出される必要があります");
    for pass in &passes {
        assert!(pass.max_elevation_deg.order() >= d(15.0).order());
        assert!(
            pass.peak_azimuth_deg.order() >= 0
                && pass.peak_azimuth_deg.order() < d(360.0).order()
        );
        assert!(pass.los > pass.aos);
    }
}

#[test]
fn orbit_test_test_azimuth_to_direction() {
    assert_eq!(azimuth_to_direction(d(0.0)), "北 (N)");
    assert_eq!(azimuth_to_direction(d(360.0)), "北 (N)");
    assert_eq!(azimuth_to_direction(d(45.0)), "北東 (NE)");
    assert_eq!(azimuth_to_direction(d(90.0)), "東 (E)");
    assert_eq!(azimuth_to_direction(d(135.0)), "南東 (SE)");
    assert_eq!(azimuth_to_direction(d(180.0)), "南 (S)");
    assert_eq!(azimuth_to_direction(d(225.0)), "南西 (SW)");
    assert_eq!(azimuth_to_direction(d(270.0)), "西 (W)");
    assert_eq!(azimuth_to_direction(d(315.0)), "北西 (NW)");
}

#[test]
fn azimuth_edges_and_turns() {
    assert_eq!(azimuth_to_direction(d(11.249999)), "北 (N)");
    assert_eq!(azimuth_to_direction(d(11.25)), "北北東 (NNE)");
    assert_eq!(azimuth_to_direction(d(348.749999)), "北北西 (NNW)");
    assert_eq!(azimuth_to_direction(d(348.75)), "北 (N)");
    assert_eq!(azimuth_to_direction(d(-90.0)), "西 (W)");
    assert_eq!(azimuth_to_direction(d(450.0)), "東 (E)");
    assert_eq!(azimuth_to_direction(d(f64::INFINITY)), "北北西 (NNW)");
    assert_eq!(azimuth_to_direction(d(-1e-20)), "北 (N)");
    assert_eq!(azimuth_to_direction(d(11.25f64.next_down())), "北 (N)");
    assert_eq!(azimuth_to_direction(d(348.75f64.next_down())), "北北西 (NNW)");
    for x in [1e18, -1e18, 7e300, -7e300, 123_456.789, -98_765.4321, -11.25, -11.250000001, 5e-324,
        -5e-324, -1e-13, -1e-14, 1e-300, -0.0, 720.0, -720.0, 359.99999999999994] {
        let turned: f64 = f64::rem_euclid(x, 360.0);
        assert_eq!(d(x).one_turn(), (turned + 0.0).to_bits());
        assert_eq!(azimuth_to_direction(d(x)), azimuth_to_direction(d(turned)));
    }
}

#[test]
fn test_signal_type_display_and_parsing() {
    let sig = SignalType::CubeSatSsdv;
    assert_eq!(sig.name(), "CubeSat SSDV (カメラ画像)");
    assert_eq!(SignalType::CubeSatSstv.name(), "CubeSat SSTV (カメラ画像)");
    assert_eq!(SignalType::CubeSatTelemetry.name(), "CubeSat Telemetry (テレメトリ)");
    assert_eq!(SignalType::MorseCw.name(), "CubeSat Morse (モールスCW)");
    assert_eq!(SignalType::IssSstv.name(), "ISS SSTV (宇宙ステーション画像)");
    assert_eq!(SignalType::AprsPacket.name(), "ISS APRS (1200bps パケット)");
    assert_eq!(SignalType::FmRepeater.name(), "FM Repeater (音声中継器)");

    assert_eq!(SignalType::from_str_type("FmRepeater"), SignalType::FmRepeater);
    assert_eq!(SignalType::from_str_type("fmvoice"), SignalType::FmRepeater);
    assert_eq!(SignalType::from_str_type("repeater"), SignalType::FmRepeater);
    assert_eq!(SignalType::from_str_type("aprs"), SignalType::AprsPacket);
    assert_eq!(SignalType::from_str_type("issaprs"), SignalType::AprsPacket);
    assert_eq!(SignalType::from_str_type("packet"), SignalType::AprsPacket);

    assert!(!SignalType::Apt.is_raw_iq());
    assert!(!SignalType::IssSstv.is_raw_iq());
    assert!(!SignalType::AprsPacket.is_raw_iq());
    assert!(!SignalType::FmRepeater.is_raw_iq());
    assert!(!SignalType::CubeSatSstv.is_raw_iq());
    assert!(SignalType::Lrpt.is_raw_iq());
    assert!(SignalType::CubeSatTelemetry.is_raw_iq());
    assert!(SignalType::CubeSatSsdv.is_raw_iq());
    assert!(SignalType::MorseCw.is_raw_iq());
}

#[test]
fn signal_names_ignore_case() {
    assert_eq!(SignalType::from_str_type("CameraSSTV"), SignalType::CubeSatSstv);
    assert_eq!(SignalType::from_str_type("ISS"), SignalType::IssSstv);
    assert_eq!(SignalType::from_str_type("SsdvCamera"), SignalType::CubeSatSsdv);
    assert_eq!(SignalType::from_str_type("CameraSsdv"), SignalType::CubeSatSsdv);
    assert_eq!(SignalType::from_str_type("BpskTelemetry"), SignalType::CubeSatTelemetry);
    assert_eq!(SignalType::from_str_type("MORSE"), SignalType::MorseCw);
    assert_eq!(SignalType::from_str_type("LRPT"), SignalType::Lrpt);
    assert_eq!(SignalType::from_str_type("Apt"), SignalType::Apt);
    // The Kelvin sign is an upper-case k.
    assert_eq!(SignalType::from_str_type("PAC\u{212a}ET"), SignalType::AprsPacket);
    assert_eq!(SignalType::from_str_type("BpskTelemetry"), SignalType::CubeSatTelemetry);
    assert_eq!(SignalType::from_lower_name("LRPT"), SignalType::CubeSatTelemetry);
}

#[test]
fn test_east_view_favorable_and_geometry() {
    let now = ms(Utc::now());
    let make_pass = |az: f64| SatellitePass {
        satellite_name: "ISS (ZARYA)".to_string(),
        frequency_hz: 145_825_000,
        signal_type: SignalType::AprsPacket,
        aos: now,
        los: now + 10 * 60_000,
        max_elevation_deg: d(65.0),
        peak_azimuth_deg: d(az),
    };
    let pass_north = make_pass(0.0);
    assert!(pass_north.is_east_view_favorable());
    assert!(pass_north.view_geometry_desc().contains("見通し良好"));
    let pass_east = make_pass(90.0);
    assert!(pass_east.is_east_view_favorable());
    assert!(pass_east.view_geometry_desc().contains("見通し良好"));
    let pass_south = make_pass(180.0);
    assert!(pass_south.is_east_view_favorable());
    assert!(!make_pass(180.1).is_east_view_favorable());
    let pass_west = make_pass(270.0);
    assert!(!pass_west.is_east_view_favorable());
    assert!(pass_west.view_geometry_desc().contains("建物遮蔽"));
    let pass_northwest = make_pass(315.0);
    assert!(!pass_northwest.is_east_view_favorable());
}

#[test]
fn test_predict_all_passes_fault_tolerance() {
    let observer = (35.7903, 139.2584, 200.0);
    let valid_sat = SatelliteInfo {
        name: "ISS (ZARYA)".to_string(),
        norad_id: 25544,
        frequency_hz: 145_825_000,
        signal_type: SignalType::AprsPacket,
        line1: "1 25544U 98067A   26248.17592762  .00003558  00000-0  72743-4 0  9999".to_string(),
        line2: "2 25544  51.6310 264.2007 0005041 108.5564 251.5973 15.48992921584153".to_string(),
    };
    let broken_sat = SatelliteInfo {
        name: "BROKEN-SAT".to_string(),
        norad_id: 99999,
        frequency_hz: 145_000_000,
        signal_type: SignalType::CubeSatTelemetry,
        line1: "1 99999U 24001A   26248.12345678  .00002145  00000-0  11452-3 0  9990".to_string(),
        line2: "2 99999  97.2890 285.1234 0012345 120.4567 240.1234 15.28901234567890".to_string(),
    };
    let start = Utc.with_ymd_and_hms(2026, 9, 6, 0, 0, 0).unwrap();
    let mut lists = Vec::new();
    for sat in [&broken_sat, &valid_sat] {
        lists.push(scan(&sat.line1, &sat.line2, observer, start, 24).map(|samples| {
            OrbitPredictor::predict_passes_for_satellite(sat, &samples, ms(start), 24, d(15.0))
        }));
    }
    assert!(lists[0].is_none());
    let passes = OrbitPredictor::predict_all_passes(lists);
    assert!(passes.iter().any(|p| p.satellite_name == "ISS (ZARYA)"));
}

#[test]
fn scan_finds_every_stretch_and_its_first_peak() {
    let sat = SatelliteInfo {
        name: "S".to_string(),
        norad_id: 1,
        frequency_hz: 7,
        signal_type: SignalType::Lrpt,
        line1: String::new(),
        line2: String::new(),
    };
    let mut samples = vec![TopoPosition { elevation_deg: d(-5.0), azimuth_deg: d(0.0) }; 121];
    let seen = [(0, 20.0, 10.0), (10, 15.0, 1.0), (11, 40.0, 2.0), (12, 40.0, 3.0), (13, 14.9, 4.0),
        (14, 16.0, 5.0), (120, 30.0, 6.0)];
    for (i, el, az) in seen {
        samples[i] = TopoPosition { elevation_deg: d(el), azimuth_deg: d(az) };
    }
    let start = 1_000_000;
    let r = OrbitPredictor::predict_passes_for_satellite(&sat, &samples, start, 1, d(15.0));
    assert_eq!(r.len(), 3);
    assert_eq!((r[0].aos, r[0].los), (start, start + 30_000));
    assert_eq!((r[1].aos, r[1].los), (start + 300_000, start + 390_000));
    assert_eq!(r[1].max_elevation_deg, d(40.0));
    assert_eq!(r[1].peak_azimuth_deg, d(2.0));
    assert_eq!((r[2].aos, r[2].los), (start + 420_000, start + 450_000));
    assert_eq!(r[2].frequency_hz, 7);
    assert!(r.iter().all(|p| p.aos < p.los));
    // A pass that goes on at the last sample ends with the scan.
    samples[119] = samples[120];
    let r = OrbitPredictor::predict_passes_for_satellite(&sat, &samples, start, 1, d(15.0));
    assert_eq!(r.len(), 4);
    assert_eq!((r[3].aos, r[3].los), (start + 3_570_000, start + 3_600_000));
    assert_eq!(
        OrbitPredictor::predict_passes_for_satellite(&sat, &vec![samples[120]], start, 0, d(15.0))
            .len(),
        0
    );
    assert_eq!(OrbitPredictor::time_of_sample(start, 2), start + 60_000);
}

#[test]
fn plan_keeps_the_higher_of_two_overlapping_passes() {
    let low = pass("low", 0, 100, 20.0);
    let high = pass("high", 50, 150, 60.0);
    let r = OrbitPredictor::predict_all_passes(vec![Some(vec![low.clone()]), Some(vec![high])]);
    assert_eq!(r.len(), 1);
    assert_eq!(r[0].satellite_name, "high");
    let same = pass("same", 99, 200, 20.0);
    let r = OrbitPredictor::predict_all_passes(vec![Some(vec![same, low])]);
    assert_eq!(r.len(), 1);
    assert_eq!(r[0].satellite_name, "low");
}

#[test]
fn plan_is_sorted_disjoint_and_stable() {
    let all = vec![
        pass("c", 300, 400, 10.0),
        pass("a", 0, 100, 10.0),
        pass("b", 100, 200, 10.0),
        pass("b2", 100, 200, 10.0),
    ];
    let r = OrbitPredictor::predict_all_passes(vec![None, Some(all)]);
    let names: Vec<&str> = r.iter().map(|p| p.satellite_name.as_str()).collect();
    assert_eq!(names, ["a", "b", "c"]);
    for w in r.windows(2) {
        assert!(w[0].los <= w[1].aos);
    }
    let again = OrbitPredictor::predict_all_passes(vec![Some(r.clone())]);
    assert_eq!(again.len(), r.len());
    assert!(OrbitPredictor::predict_all_passes(vec![]).is_empty());
}

#[test]
fn three_line_elements_are_indexed_by_number() {
    let text = "junk\r\n\n ISS (ZARYA) \r\n1 25544U x\r\n2 25544  51.6\r\nNOAA 19\n1 33591U y\n2 33591 z\n";
    let mut db = HashMap::new();
    parse_3line_tles(text, &mut db);
    assert_eq!(db.len(), 2);
    assert_eq!(db[&25544].0, "ISS (ZARYA)");
    assert_eq!(db[&25544].1, "1 25544U x");
    assert_eq!(db[&33591].2, "2 33591 z");
    parse_3line_tles("NEW\n1 33591U q\n2 33591 w\n", &mut db);
    assert_eq!(db.len(), 2);
    assert_eq!(db[&33591].0, "NEW");
    let mut odd = HashMap::new();
    parse_3line_tles("SHORT\n1 1\n2 123\nSIGN\n1 1\n2 +0042 x\nWORD\n1 1\n2 ABCDE x", &mut odd);
    assert_eq!(odd.len(), 1);
    assert_eq!(odd[&42].0, "SIGN");
    let mut wide = HashMap::new();
    parse_3line_tles("WIDE\n1 1\n2 \u{3000}12 x\nCUT\n1 1\n2 1234\u{e9}x", &mut wide);
    assert_eq!(wide.len(), 1);
    assert_eq!(wide[&12].0, "WIDE");
}

#[test]
fn satellites_are_built_from_the_table() {
    let mut db = HashMap::new();
    parse_3line_tles(
        "METEOR-M2 4\n1 59051U a\n2 59051 b\nISS (ZARYA)\n1 25544U a\n2 25544 b\nSO-50\n1 27607U a\n2 27607 b",
        &mut db,
    );
    let targets = vec![
        ("Meteor-M N2-4".to_string(), 59051, 137_900_000, SignalType::Lrpt),
        ("ISS (ZARYA)".to_string(), 25544, 145_800_000, SignalType::IssSstv),
        ("SO-50".to_string(), 27607, 436_795_000, SignalType::FmRepeater),
        ("Lost".to_string(), 1, 1, SignalType::Apt),
    ];
    let infos = build_satellite_infos_from_db(&targets, &db);
    assert_eq!(infos.len(), 3);
    assert_eq!(infos[0].name, "Meteor-M N2-4");
    assert!(infos[0].line1.starts_with("1 "));
    assert!(infos[0].line2.starts_with("2 "));
    assert!(needs_query(&targets[3], &db));
    assert!(!needs_query(&targets[0], &db));
}

#[test]
fn targets_queries_and_elements_follow_the_settings() {
    let mut config = SatellitesConfig::default();
    let names: Vec<String> = satellite_targets(&config).into_iter().map(|t| t.0).collect();
    assert_eq!(names, ["Meteor-M N2-3", "Meteor-M N2-4"]);
    assert_eq!(
        group_queries(&config),
        ["https://celestrak.org/NORAD/elements/gp.php?GROUP=weather&FORMAT=tle"]
    );
    config.enable_noaa = true;
    config.noaa = NoaaConfig { enabled: true };
    config.iss = IssConfig { enabled: true, norad_id: 25544, freq: 145_800_000 };
    config.cubesats = CubeSatsConfig {
        enabled: true,
        targets: vec![CubeSatTarget {
            name: "UmKA-1".to_string(),
            norad_id: 57172,
            freq: 437_625_000,
            kind: "CameraSstv".to_string(),
        }],
    };
    let targets = satellite_targets(&config);
    assert_eq!(targets.len(), 7);
    assert_eq!(targets[3], ("NOAA 18".to_string(), 28654, 137_912_500, SignalType::Apt));
    assert_eq!(targets[6], ("UmKA-1".to_string(), 57172, 437_625_000, SignalType::CubeSatSstv));
    assert_eq!(group_queries(&config).len(), 2);
    assert_eq!(
        catalog_query(57172),
        "https://celestrak.org/NORAD/elements/gp.php?CATNR=57172&FORMAT=tle"
    );
    let groups = vec![Some("N\n1 33591U a\n2 33591 b".to_string()), None];
    let mut replies = vec![None; 7];
    replies[6] = Some("UMKA 1\r\n1 57172U c\r\n2 57172 d\r\n".to_string());
    replies[5] = Some("No GP data found".to_string());
    let infos = fetch_all_tles(&config, &groups, &replies);
    let found: Vec<(&str, &str)> =
        infos.iter().map(|i| (i.name.as_str(), i.line1.as_str())).collect();
    assert_eq!(found, [("NOAA 19", "1 33591U a"), ("UmKA-1", "1 57172U c")]);
    config = SatellitesConfig::default();
    config.enable_meteor = false;
    assert!(satellite_targets(&config).is_empty());
    assert!(group_queries(&config).is_empty());
}

#[test]
fn layout_of_element_texts_does_not_matter() {
    let plain = "ISS\n1 25544U a\n2 25544 b\nNOAA 19\n1 33591U c\n2 33591 d\n";
    let spaced = "\n  ISS \r\n \t\n1 25544U a  \n\n\t2 25544 b\n\nNOAA 19\n1 33591U c\n2 33591 d \n\n";
    let (mut a, mut b) = (HashMap::new(), HashMap::new());
    parse_3line_tles(plain, &mut a);
    parse_3line_tles(spaced, &mut b);
    assert_eq!(a.len(), 2);
    assert_eq!(a, b);
    parse_3line_tles(plain, &mut b);
    assert_eq!(a, b);
}

#[test]
fn pass_left_out_yields_to_a_higher_one() {
    let a = pass("a", 0, 100, 30.0);
    let b = pass("b", 50, 150, 40.0);
    let c = pass("c", 140, 200, 40.0);
    let r = OrbitPredictor::predict_all_passes(vec![Some(vec![a, b, c])]);
    assert_eq!(r.len(), 1);
    assert_eq!(r[0].satellite_name, "b");
}
