use chrono::{DateTime, Duration, Utc};
use ground_station::binary64::Binary64;
use ground_station::config::{SchedulerConfig, SdrConfig};
use ground_station::noaa::decoder::{build_noaa_apt_args, AptAttempt, Decoder};
use ground_station::noaa::orbit::{
    azimuth_to_direction, fetch_weather_tles, weather_targets, OrbitPredictor, SatelliteInfo,
    SatellitePass, TleReply,
};
use ground_station::noaa::receiver::build_rtl_fm_args;
use ground_station::noaa::scheduler::{next_pass, show_schedule, Action, Daemon, Event, Phase};
use ground_station::passes::TopoPosition;
use ground_station::receiver::create_wav_header;

fn d(x: f64) -> Binary64 {
    Binary64::from_bits(x.to_bits()).unwrap()
}

fn config() -> SchedulerConfig {
    SchedulerConfig {
        min_elevation_deg: d(20.0),
        pre_alert_minutes: d(3.0),
        tle_update_interval_hours: 24,
        daily_schedule_enabled: true,
        daily_schedule_hour_jst: 7,
        daily_schedule_minute_jst: 0,
        daily_schedule_send_on_startup: false,
    }
}

fn pass() -> SatellitePass {
    SatellitePass {
        satellite_name: "NOAA 19".to_string(),
        frequency_hz: 137_100_000,
        aos: 1_788_500_000_000,
        los: 1_788_500_600_000,
        max_elevation_deg: d(52.5),
        peak_azimuth_deg: d(120.0),
    }
}

fn scan(line1: &str, line2: &str, start: DateTime<Utc>) -> Vec<TopoPosition> {
    let (lat_deg, lon_deg, alt_m): (f64, f64, f64) = (35.6895, 139.6917, 40.0);
    let (lat, lon, alt) = (lat_deg.to_radians(), lon_deg.to_radians(), alt_m / 1000.0);
    let f: f64 = 1.0 / 298.257223563;
    let e2 = f * (2.0 - f);
    let n = 6378.137 / (1.0 - e2 * lat.sin().powi(2)).sqrt();
    let obs = [
        (n + alt) * lat.cos() * lon.cos(),
        (n + alt) * lat.cos() * lon.sin(),
        (n * (1.0 - e2) + alt) * lat.sin(),
    ];
    let elements = sgp4::Elements::from_tle(None, line1.as_bytes(), line2.as_bytes()).unwrap();
    let constants = sgp4::Constants::from_elements(&elements).unwrap();
    let epoch = elements.datetime.and_utc();
    let mut out = Vec::new();
    for i in 0..(24 * 120 + 1) {
        let t = start + Duration::seconds(i * 30);
        let minutes = (t - epoch).num_milliseconds() as f64 / 60_000.0;
        let p = constants.propagate(sgp4::MinutesSinceEpoch(minutes)).unwrap();
        let days = t.timestamp() as f64 / 86400.0 + 2440587.5 - 2451545.0;
        let gmst = (280.46061837 + 360.98564736629 * days).rem_euclid(360.0).to_radians();
        let (c, s) = (gmst.cos(), gmst.sin());
        let x = c * p.position[0] + s * p.position[1] - obs[0];
        let y = -s * p.position[0] + c * p.position[1] - obs[1];
        let z = p.position[2] - obs[2];
        let east = -lon.sin() * x + lon.cos() * y;
        let north = -lat.sin() * lon.cos() * x - lat.sin() * lon.sin() * y + lat.cos() * z;
        let up = lat.cos() * lon.cos() * x + lat.cos() * lon.sin() * y + lat.sin() * z;
        let range = (x * x + y * y + z * z).sqrt();
        out.push(TopoPosition {
            elevation_deg: d((up / range).clamp(-1.0, 1.0).asin().to_degrees()),
            azimuth_deg: d(east.atan2(north).to_degrees().rem_euclid(360.0)),
        });
    }
    out
}

#[test]
fn test_tle_parsing_and_pass_prediction() {
    let tle_line1 = "1 33591U 09005A   26246.83578895  .00000001  00000+0  24547-4 0  9994";
    let tle_line2 = "2 33591  98.9458 317.7433 0014104 163.8300 196.3324 14.13484440905594";
    let sat = SatelliteInfo {
        name: "NOAA 19".to_string(),
        norad_id: 33591,
        frequency_hz: 137_100_000,
        line1: tle_line1.to_string(),
        line2: tle_line2.to_string(),
    };
    let base_time = Utc::now();
    let samples = scan(tle_line1, tle_line2, base_time);
    let passes = OrbitPredictor::predict_passes_for_satellite(
        &sat,
        &samples,
        base_time.timestamp_millis(),
        24,
        d(15.0),
    );
    assert!(!passes.is_empty(), "24時間以内に少なくとも1回のパスが検出される必要があります");
    for pass in &passes {
        assert!(pass.max_elevation_deg.order() >= d(15.0).order());
        assert!(
            pass.peak_azimuth_deg.order() >= 0
                && pass.peak_azimuth_deg.order() < d(360.0).order()
        );
        assert!(pass.los > pass.aos);
        assert_eq!(pass.frequency_hz, 137_100_000);
        assert_eq!(pass.satellite_name, "NOAA 19");
    }
}

#[test]
fn test_azimuth_to_direction() {
    assert_eq!(azimuth_to_direction(d(0.0)), "北 (N)");
    assert_eq!(azimuth_to_direction(d(360.0)), "北 (N)");
    assert_eq!(azimuth_to_direction(d(45.0)), "北東 (NE)");
    assert_eq!(azimuth_to_direction(d(90.0)), "東 (E)");
    assert_eq!(azimuth_to_direction(d(135.0)), "南東 (SE)");
    assert_eq!(azimuth_to_direction(d(180.0)), "南 (S)");
    assert_eq!(azimuth_to_direction(d(225.0)), "南西 (SW)");
    assert_eq!(azimuth_to_direction(d(270.0)), "西 (W)");
    assert_eq!(azimuth_to_direction(d(315.0)), "北西 (NW)");
}

#[test]
fn test_command_args_construction() {
    let wav = "/tmp/test.wav";
    let png = "/tmp/test.png";
    let fm_args = build_rtl_fm_args(137_100_000, wav);
    assert!(fm_args.contains(&"-f".to_string()));
    assert!(fm_args.contains(&"137100000".to_string()));
    assert!(fm_args.contains(&"-M".to_string()));
    assert!(fm_args.contains(&"wfm".to_string()));
    assert!(fm_args.contains(&"-s".to_string()));
    assert!(fm_args.contains(&"60k".to_string()));
    assert!(fm_args.contains(&"-r".to_string()));
    assert!(fm_args.contains(&"11025".to_string()));
    assert_eq!(fm_args.last().unwrap(), "/tmp/test.wav");
    let apt_args = build_noaa_apt_args(wav, png);
    assert_eq!(apt_args[0], "/tmp/test.wav");
    assert_eq!(apt_args[1], "-o");
    assert_eq!(apt_args[2], "/tmp/test.png");
}

#[test]
fn worker_test_test_command_args_construction() {
    let wav = "/tmp/test.wav";
    let png = "/tmp/test.png";
    let sdr = SdrConfig { gain: d(45.0), sample_rate: 60000, ppm_error: 0 };
    let fm_args = ground_station::receiver::build_rtl_fm_args(137_100_000, &sdr);
    assert!(fm_args.contains(&"-f".to_string()));
    assert!(fm_args.contains(&"137100000".to_string()));
    assert!(fm_args.contains(&"-M".to_string()));
    assert!(fm_args.contains(&"fm".to_string()));
    assert!(fm_args.contains(&"-s".to_string()));
    assert!(fm_args.contains(&"60000".to_string()));
    assert!(fm_args.contains(&"-r".to_string()));
    assert!(fm_args.contains(&"11025".to_string()));
    assert!(fm_args.contains(&"-g".to_string()));
    assert!(fm_args.contains(&"45.0".to_string()));
    assert!(fm_args.contains(&"-E".to_string()));
    assert!(fm_args.contains(&"deemp".to_string()));
    assert_eq!(fm_args.last().unwrap(), "-");
    let apt_args = build_noaa_apt_args(wav, png);
    assert_eq!(apt_args[0], "/tmp/test.wav");
    assert_eq!(apt_args[1], "-o");
    assert_eq!(apt_args[2], "/tmp/test.png");
    let header = create_wav_header(1000);
    assert_eq!(&header[0..4], b"RIFF");
    assert_eq!(&header[8..12], b"WAVE");
    assert_eq!(&header[12..16], b"fmt ");
    assert_eq!(&header[36..40], b"data");
}

#[test]
fn weather_plan_fails_with_the_first_error() {
    let ok = OrbitPredictor::predict_all_passes(vec![Ok(vec![pass()]), Ok(vec![])]).unwrap();
    assert_eq!(ok.len(), 1);
    assert_eq!(ok[0].peak_azimuth_deg, d(120.0));
    let err = OrbitPredictor::predict_all_passes(vec![
        Ok(vec![pass()]),
        Err("one".to_string()),
        Err("two".to_string()),
    ]);
    assert_eq!(err.err(), Some("one".to_string()));
}

#[test]
fn weather_elements_come_from_three_replies() {
    assert_eq!(weather_targets().len(), 3);
    let good = |n: u32| TleReply::Text(format!("X\n1 {}U a\n2 {} b\n", n, n));
    let found = fetch_weather_tles(&vec![
        good(25338),
        TleReply::Text("No GP data found".to_string()),
        good(33591),
    ])
    .unwrap();
    assert_eq!(found.len(), 2);
    assert_eq!(found[0].name, "NOAA 15");
    assert_eq!(found[1].frequency_hz, 137_100_000);
    assert_eq!(found[1].line2, "2 33591 b");
    let err = fetch_weather_tles(&vec![good(1), TleReply::NoAnswer, TleReply::NoText]);
    assert_eq!(err.err(), Some("TLE取得失敗: NOAA 18".to_string()));
    let err = fetch_weather_tles(&vec![TleReply::NoText, good(1), good(2)]);
    assert_eq!(err.err(), Some("レスポンステキスト取得失敗: NOAA 15".to_string()));
}

#[test]
fn apt_attempt_names_the_first_failure() {
    let mut a = AptAttempt {
        input_exists: false,
        directory_made: false,
        started: false,
        success: false,
        status: "exit status: 1".to_string(),
        product_exists: false,
    };
    let run = |a: &AptAttempt| Decoder::decode_apt(a, "d/raw.wav", "d/image.png");
    assert_eq!(run(&a), Err("入力WAVファイルが存在しません: \"d/raw.wav\"".to_string()));
    a.input_exists = true;
    assert_eq!(run(&a), Err("ディレクトリ作成失敗: \"d\"".to_string()));
    assert_eq!(
        Decoder::decode_apt(&a, "raw.wav", "d//image.png"),
        Err("ディレクトリ作成失敗: \"d\"".to_string())
    );
    a.directory_made = true;
    assert!(run(&a).unwrap_err().starts_with("noaa-apt コマンドの実行に失敗しました"));
    a.started = true;
    assert_eq!(run(&a), Err("noaa-apt が異常終了しました: status exit status: 1".to_string()));
    a.success = true;
    assert_eq!(run(&a), Err("デコード画像が生成されませんでした: \"d/image.png\"".to_string()));
    a.product_exists = true;
    assert_eq!(run(&a), Ok(()));
}

#[test]
fn weather_table_shows_each_pass() {
    let lines = show_schedule(&[pass()], d(35.6895), d(139.6917), d(20.0));
    assert_eq!(lines.len(), 9);
    assert_eq!(
        lines[6],
        "NOAA 19    | 137.1000 MHz | 2026-09-04 14:33:20 | 2026-09-04 14:43:20 | 52.5°"
    );
    let empty = show_schedule(&[], d(35.6895), d(139.6917), d(20.0));
    assert_eq!(empty[6], "※ 仰角 20.0° 以上の通過パスは見つかりませんでした");
}

#[test]
fn weather_daemon_follows_a_pass_to_its_image() {
    let c = config();
    let p = pass();
    let (mut daemon, first) = Daemon::start(p.aos - 600_000);
    assert!(matches!(first, Action::FetchElements));
    let a = daemon.step(Event::Elements { count: 3 }, p.aos - 599_000, &c, "data");
    assert!(matches!(a, Action::Predict));
    let a = daemon.step(Event::Planned { next: Some(p.clone()) }, p.aos - 598_000, &c, "data");
    assert!(matches!(a, Action::Sleep { secs: 420, interruptible: true }));
    let a = daemon.step(Event::Done, p.aos - 180_000, &c, "data");
    match a {
        Action::Speak { text } => assert_eq!(
            text,
            "まもなくNOAA 19が通過するのだ！最大仰角は52度、受信を試みるのだ！"
        ),
        _ => panic!("{:?}", a),
    }
    let a = daemon.step(Event::Done, p.aos - 100_500, &c, "data");
    assert!(matches!(a, Action::Sleep { secs: 100, interruptible: true }));
    let a = daemon.step(Event::Done, p.aos, &c, "data");
    match a {
        Action::StartReceiver { frequency_hz, path } => {
            assert_eq!(frequency_hz, 137_100_000);
            assert_eq!(path, "data/20260904_143320_NOAA19/raw.wav");
        }
        _ => panic!("{:?}", a),
    }
    let a = daemon.step(Event::Started { running: true }, p.los - 400, &c, "data");
    assert!(matches!(a, Action::Sleep { secs: 1, interruptible: true }));
    let a = daemon.step(Event::Done, p.los, &c, "data");
    assert!(matches!(a, Action::StopReceiver));
    let a = daemon.step(Event::Done, p.los, &c, "data");
    match a {
        Action::Decode { recording, image, session_dir } => {
            assert_eq!(recording, "data/20260904_143320_NOAA19/raw.wav");
            assert_eq!(image, "data/20260904_143320_NOAA19/image.png");
            assert_eq!(session_dir, "data/20260904_143320_NOAA19");
        }
        _ => panic!("{:?}", a),
    }
    let a = daemon.step(Event::Decoded { success: false }, p.los, &c, "data");
    assert!(matches!(a, Action::Speak { text } if text.contains("失敗")));
    let a = daemon.step(Event::Done, p.los, &c, "data");
    assert!(matches!(a, Action::Sleep { secs: 10, interruptible: false }));
    let a = daemon.step(Event::Done, p.los + 10_000, &c, "data");
    assert!(matches!(a, Action::Predict));
    let a = daemon.step(Event::Planned { next: None }, p.los + 10_000, &c, "data");
    assert!(matches!(a, Action::Sleep { secs: 3600, interruptible: true }));
    let a = daemon.step(Event::Interrupted, p.los + 20_000, &c, "data");
    assert!(matches!(a, Action::Quit));
    assert_eq!(daemon.phase, Phase::Ended);
}

#[test]
fn next_pass_is_the_first_that_is_not_over() {
    let mut later = pass();
    later.los += 1;
    let all = [pass(), later];
    assert_eq!(next_pass(&all, all[0].los - 1).unwrap().los, all[0].los);
    assert_eq!(next_pass(&all, all[0].los).unwrap().los, all[1].los);
    assert!(next_pass(&all, all[1].los).is_none());
}
