use chrono::{TimeZone, Utc};
use ground_station::binary64::Binary64;
use ground_station::clock::{is_dated, jst_day, jst_time};
use ground_station::config::{CubeSatTarget, SchedulerConfig};
use ground_station::daemon::{Action, Daemon, Event, Phase};
use ground_station::decoder::DecodeResult;
use ground_station::discord::{PassStatus, SatelliteTelemetry, MAX_DISCORD_AUDIO_BYTES};
use ground_station::orbit::{SatellitePass, SignalType};
use ground_station::scheduler::{
    date_label, filter_passes_for_jst_date, next_pass, pre_alert_time, recording_path,
    remove_spaces, session_directory, show_schedule, start_of_day, tle_update_due, wait_until,
    DailyAction, DailyEvent, DailyPhase, DailyScheduler, WaitStep,
};
use ground_station::worker::{
    audio_fits, describe_result, describe_session, match_signal, process_decode_job,
    resolve_pass_from_session_dir, voice_message, DecodeJob, FilesRead,
};

fn d(x: f64) -> Binary64 {
    Binary64::from_bits(x.to_bits()).unwrap()
}

fn utc(y: i32, m: u32, day: u32, h: u32, min: u32) -> i64 {
    Utc.with_ymd_and_hms(y, m, day, h, min, 0).unwrap().timestamp_millis()
}

fn config() -> SchedulerConfig {
    SchedulerConfig {
        min_elevation_deg: d(15.0),
        pre_alert_minutes: d(3.0),
        tle_update_interval_hours: 24,
        daily_schedule_enabled: true,
        daily_schedule_hour_jst: 7,
        daily_schedule_minute_jst: 0,
        daily_schedule_send_on_startup: false,
    }
}

fn pass(name: &str, signal_type: SignalType) -> SatellitePass {
    SatellitePass {
        satellite_name: name.to_string(),
        frequency_hz: 137_900_000,
        signal_type,
        aos: utc(2026, 9, 5, 14, 0),
        los: utc(2026, 9, 5, 14, 10),
        max_elevation_deg: d(45.0),
        peak_azimuth_deg: d(120.0),
    }
}

fn spoken(a: Action) -> String {
    match a {
        Action::Speak { text } => text,
        _ => panic!("{:?}", a),
    }
}

#[test]
fn test_filter_passes_for_jst_date() {
    let pass_today = SatellitePass {
        satellite_name: "NOAA 18".to_string(),
        frequency_hz: 137_912_500,
        signal_type: SignalType::Apt,
        aos: utc(2026, 9, 5, 14, 0),
        los: utc(2026, 9, 5, 14, 10),
        max_elevation_deg: d(45.0),
        peak_azimuth_deg: d(120.0),
    };
    let pass_tomorrow = SatellitePass {
        satellite_name: "Meteor-M N2-4".to_string(),
        frequency_hz: 137_900_000,
        signal_type: SignalType::Lrpt,
        aos: utc(2026, 9, 5, 16, 0),
        los: utc(2026, 9, 5, 16, 12),
        max_elevation_deg: d(60.0),
        peak_azimuth_deg: d(180.0),
    };
    let target_date = chrono::NaiveDate::from_ymd_opt(2026, 9, 5).unwrap();
    let epoch = chrono::NaiveDate::from_ymd_opt(1970, 1, 1).unwrap();
    let filtered = filter_passes_for_jst_date(
        &[pass_today.clone(), pass_tomorrow],
        (target_date - epoch).num_days(),
    );
    assert_eq!(filtered.len(), 1);
    assert_eq!(filtered[0].satellite_name, "NOAA 18");
}

#[test]
fn japanese_days_and_times() {
    let t = utc(2026, 9, 5, 15, 0);
    assert_eq!(jst_day(t) - jst_day(t - 1), 1);
    assert_eq!(start_of_day(jst_day(t)), t);
    assert_eq!(date_label(jst_day(t)), "2026-09-06");
    assert_eq!(jst_time(t - 1).format_date_time(), "2026-09-05 23:59:59");
    assert_eq!(jst_time(-1).format_date_time(), "1970-01-01 08:59:59");
    assert_eq!(jst_time(utc(2024, 2, 28, 15, 0)).format_date(), "2024-02-29");
    assert_eq!(jst_time(utc(2024, 2, 28, 15, 0)).format_md_hm(), "02/29 00:00");
    assert_eq!(jst_time(253_402_300_800_000).format_date(), "+10000-01-01");
    assert_eq!(jst_time(-62_198_755_200_000).format_date(), "-0001-01-01");
    assert!(is_dated(8_210_266_790_399_999));
    assert!(!is_dated(8_210_266_790_400_000));
    assert_eq!(jst_time(8_210_266_790_399_999).year, 262_142);
    assert_eq!(jst_time(-8_334_601_142_400_000).year, -262_143);
    assert_eq!(jst_day(i64::MIN), (i64::MIN as i128 + 32_400_000).div_euclid(86_400_000) as i64);
}

#[test]
fn daily_schedule_is_due_once_a_day() {
    let seven = utc(2026, 9, 4, 22, 0);
    let mut off = config();
    off.daily_schedule_enabled = false;
    assert_eq!(DailyScheduler::start(&off, seven), None);
    let (mut s, first) = DailyScheduler::start(&config(), seven - 1).unwrap();
    assert_eq!(first, DailyAction::Wait { ms: 1 });
    assert_eq!(s.next_target(seven - 1), seven);
    assert_eq!(s.next_target(seven), seven + 86_400_000);
    s.last_sent = Some(jst_day(seven));
    assert_eq!(s.next_target(seven - 1), seven + 86_400_000);
    s.hour = 24;
    assert_eq!(s.next_target(seven), seven + 86_400_000);
}

#[test]
fn daily_schedule_is_tried_again_after_a_failure() {
    let seven = utc(2026, 9, 4, 22, 0);
    let day = jst_day(seven);
    let (mut s, first) = DailyScheduler::start(&config(), seven - 60_000).unwrap();
    assert_eq!(first, DailyAction::Wait { ms: 60_000 });
    assert_eq!(s.step(DailyEvent::Done, seven), DailyAction::Send { day });
    assert_eq!(
        s.step(DailyEvent::Sent { delivered: false }, seven + 5),
        DailyAction::Pause { secs: 300, interruptible: true }
    );
    assert_eq!(s.last_sent, None);
    assert_eq!(s.step(DailyEvent::Done, seven + 300_005), DailyAction::Send { day });
    assert_eq!(
        s.step(DailyEvent::Sent { delivered: true }, seven + 300_010),
        DailyAction::Pause { secs: 60, interruptible: false }
    );
    assert_eq!(s.last_sent, Some(day));
    assert_eq!(
        s.step(DailyEvent::Done, seven + 360_000),
        DailyAction::Wait { ms: 86_400_000 - 360_000 }
    );
    assert_eq!(s.step(DailyEvent::Interrupted, seven + 400_000), DailyAction::Stop);
    assert_eq!(s.phase, DailyPhase::Ended);
}

#[test]
fn daily_schedule_is_tried_again_for_the_same_day() {
    let mut c = config();
    c.daily_schedule_hour_jst = 23;
    c.daily_schedule_minute_jst = 58;
    let due = utc(2026, 9, 5, 14, 58);
    let day = jst_day(due);
    let (mut s, _) = DailyScheduler::start(&c, due - 1).unwrap();
    assert_eq!(s.step(DailyEvent::Done, due), DailyAction::Send { day });
    s.step(DailyEvent::Sent { delivered: false }, due);
    assert_eq!(jst_day(due + 300_000), day + 1);
    assert_eq!(s.step(DailyEvent::Done, due + 300_000), DailyAction::Send { day });
    s.step(DailyEvent::Sent { delivered: true }, due + 300_000);
    assert_eq!(
        s.step(DailyEvent::Done, due + 360_000),
        DailyAction::Wait { ms: 86_400_000 - 360_000 }
    );
}

#[test]
fn daily_schedule_is_sent_at_the_start_where_it_is_wanted() {
    let noon = utc(2026, 9, 5, 3, 0);
    let day = jst_day(noon);
    let mut c = config();
    c.daily_schedule_send_on_startup = true;
    let (mut s, first) = DailyScheduler::start(&c, noon).unwrap();
    assert_eq!(first, DailyAction::Send { day });
    let mut failed = s;
    let tomorrow = DailyAction::Wait { ms: 19 * 3_600_000 };
    assert_eq!(s.step(DailyEvent::Sent { delivered: true }, noon), tomorrow);
    assert_eq!(s.last_sent, Some(day));
    assert_eq!(failed.step(DailyEvent::Sent { delivered: false }, noon), tomorrow);
    assert_eq!(failed.last_sent, None);
}

#[test]
fn waits_look_at_the_clock_often() {
    assert_eq!(wait_until(1000, 1000, 0), WaitStep::Reached);
    assert_eq!(
        wait_until(1999, 1000, 1000),
        WaitStep::Sleep { secs: 1, report: false, remaining_secs: 0 }
    );
    assert_eq!(
        wait_until(4500, 1000, 1000),
        WaitStep::Sleep { secs: 3, report: false, remaining_secs: 3 }
    );
    assert_eq!(
        wait_until(100_000, 60_000, 0),
        WaitStep::Sleep { secs: 5, report: true, remaining_secs: 40 }
    );
    assert_eq!(
        wait_until(89_000, 60_000, 0),
        WaitStep::Sleep { secs: 5, report: false, remaining_secs: 29 }
    );
}

#[test]
fn next_pass_is_the_first_not_over() {
    let a = pass("a", SignalType::Apt);
    let mut b = pass("b", SignalType::Apt);
    b.los += 1000;
    let list = [a.clone(), b];
    assert_eq!(next_pass(&list, a.los).unwrap().satellite_name, "b");
    assert_eq!(next_pass(&list, a.los - 1).unwrap().satellite_name, "a");
    assert!(next_pass(&list, a.los + 1000).is_none());
    assert!(tle_update_due(0, 0, 24, false));
    assert!(!tle_update_due(86_399_999, 0, 24, true));
    assert!(tle_update_due(86_400_000, 0, 24, true));
    assert_eq!(pre_alert_time(1_000_000, d(3.0)), 820_000);
    assert_eq!(pre_alert_time(1_000_000, d(-0.5)), 1_030_000);
    for x in [0.1, 1.1, 2.3, 0.00001, -7.77, 1e-20, 1e300] {
        assert_eq!(pre_alert_time(0, d(x)), 0i64.saturating_sub((x * 60_000.0) as i64));
    }
    assert_eq!(pre_alert_time(i64::MIN, d(3.0)), i64::MIN);
}

#[test]
fn sessions_are_named_by_time_and_satellite() {
    let p = pass("Meteor-M N2-4", SignalType::Lrpt);
    let dir = session_directory("data/noaa", &p);
    assert_eq!(dir, "data/noaa/20260905_230000_Meteor-MN2-4");
    assert_eq!(recording_path(&dir, SignalType::Lrpt), format!("{}/raw.u8", dir));
    assert_eq!(recording_path(&dir, SignalType::Apt), format!("{}/raw.wav", dir));
    assert_eq!(remove_spaces(" a b "), "ab");
    let (back, raw) = resolve_pass_from_session_dir(&vec![], &dir, true, true, p.los).unwrap();
    assert_eq!(back.satellite_name, "Meteor-MN2-4");
    assert_eq!(back.signal_type, SignalType::Lrpt);
    assert_eq!(raw, format!("{}/raw.u8", dir));
    assert_eq!((back.aos, back.los), (p.los - 600_000, p.los));
}

#[test]
fn schedule_table_shows_each_pass() {
    let lines = show_schedule(
        &[pass("Meteor-M N2-4", SignalType::Lrpt)],
        d(35.7903),
        d(139.2584),
        d(15.0),
    );
    assert_eq!(
        lines[6],
        "Meteor-M N2-4   | 137.9000 MHz | Meteor LRPT (デジタルQPSK)       | 2026-09-05 23:00:00 | 2026-09-05 23:10:00 | 45.0° (東南東 (ESE))"
    );
    assert_eq!(
        lines[2],
        "📡 地上局 衛星通過予定スケジュール (今後24時間 / 観測地: 緯度 35.7903, 経度 139.2584)"
    );
    let none = show_schedule(&[], d(35.0), d(139.0), d(15.0));
    assert_eq!(none[6], "※ 仰角 15.0° 以上の通過パスは見つかりませんでした");
}

#[test]
fn daemon_follows_a_pass_to_the_decoder() {
    let c = config();
    let p = pass("UmKA-1", SignalType::CubeSatTelemetry);
    let (mut daemon, first) = Daemon::start(p.aos - 3_600_000);
    assert!(matches!(first, Action::FetchElements));
    assert!(matches!(
        daemon.step(Event::NoElements, p.aos - 3_600_000, &c, "data"),
        Action::Rest { secs: 60 }
    ));
    assert!(matches!(
        daemon.step(Event::Done, p.aos - 3_540_000, &c, "data"),
        Action::FetchElements
    ));
    assert!(matches!(
        daemon.step(Event::Elements { count: 5 }, p.aos - 3_530_000, &c, "data"),
        Action::Predict
    ));
    let a = daemon.step(Event::Planned { next: Some(p.clone()) }, p.aos - 3_530_000, &c, "data");
    assert_eq!(
        spoken(a),
        "NOAA自律地上局デーモンを起動したのだ！次の通過予定は23時00分、UmKA-1なのだ！"
    );
    match daemon.step(Event::Done, p.aos - 3_520_000, &c, "data") {
        Action::WaitUntil { time, label } => {
            assert_eq!(time, p.aos - 180_000);
            assert_eq!(label, "事前通知");
        }
        a => panic!("{:?}", a),
    }
    let a = daemon.step(Event::Done, p.aos - 180_000, &c, "data");
    assert_eq!(
        spoken(a),
        "まもなくUmKA-1が通過するのだ！最大仰角は45度、東南東 (ESE)の空なのだ！"
    );
    match daemon.step(Event::Done, p.aos - 170_000, &c, "data") {
        Action::WaitUntil { time, label } => {
            assert_eq!(time, p.aos);
            assert_eq!(label, "録音開始 (AOS)");
        }
        a => panic!("{:?}", a),
    }
    let a = daemon.step(Event::Done, p.aos, &c, "data");
    assert_eq!(
        spoken(a),
        "UmKA-1が地平線から昇ってきたのだ！CubeSat Telemetry (テレメトリ)の受信録音を開始するのだ！"
    );
    match daemon.step(Event::Done, p.aos, &c, "data") {
        Action::StartReceiver { frequency_hz, signal, path } => {
            assert_eq!(frequency_hz, 137_900_000);
            assert_eq!(signal, SignalType::CubeSatTelemetry);
            assert_eq!(path, "data/20260905_230000_UmKA-1/raw.u8");
        }
        a => panic!("{:?}", a),
    }
    assert!(matches!(
        daemon.step(Event::Started { running: true }, p.aos, &c, "data"),
        Action::WaitUntil { .. }
    ));
    assert!(matches!(daemon.step(Event::Done, p.los, &c, "data"), Action::StopReceiver));
    let a = daemon.step(Event::Done, p.los, &c, "data");
    assert_eq!(
        spoken(a),
        "UmKA-1が地平線下に沈んだのだ！録音完了、画像デコードを開始するのだ！"
    );
    match daemon.step(Event::Done, p.los, &c, "data") {
        Action::Enqueue { path, session_dir } => {
            assert_eq!(path, "data/20260905_230000_UmKA-1/raw.u8");
            assert_eq!(session_dir, "data/20260905_230000_UmKA-1");
        }
        a => panic!("{:?}", a),
    }
    assert!(matches!(daemon.step(Event::Done, p.los, &c, "data"), Action::Rest { secs: 10 }));
    assert!(matches!(daemon.step(Event::Done, p.los + 10_000, &c, "data"), Action::Predict));
    assert!(matches!(
        daemon.step(Event::Planned { next: None }, p.los + 10_000, &c, "data"),
        Action::Rest { secs: 3600 }
    ));
}

#[test]
fn daemon_ends_when_told() {
    let c = config();
    let p = pass("UmKA-1", SignalType::CubeSatTelemetry);
    let mut daemon = Daemon {
        phase: Phase::Starting,
        round_start: 0,
        last_update: p.aos,
        known: true,
        greeted: true,
        pass: Some(p.clone()),
    };
    assert!(matches!(
        daemon.step(Event::Started { running: true }, p.aos, &c, "data"),
        Action::WaitUntil { .. }
    ));
    assert!(matches!(daemon.step(Event::Interrupted, p.aos, &c, "data"), Action::StopReceiver));
    let a = daemon.step(Event::Done, p.aos, &c, "data");
    assert_eq!(spoken(a), "観測デーモンを終了するのだ！お疲れ様なのだ！");
    assert!(matches!(daemon.step(Event::Done, p.aos, &c, "data"), Action::Quit));
    assert_eq!(daemon.phase, Phase::Ended);
    let mut daemon = Daemon {
        phase: Phase::Starting,
        round_start: 0,
        last_update: p.aos,
        known: true,
        greeted: true,
        pass: Some(p.clone()),
    };
    assert!(matches!(
        daemon.step(Event::Started { running: false }, p.aos, &c, "data"),
        Action::Predict
    ));
    assert!(matches!(
        daemon.step(Event::NotPlanned, p.aos, &c, "data"),
        Action::Rest { secs: 60 }
    ));
}

#[test]
fn sessions_are_resolved_or_refused() {
    let targets = vec![CubeSatTarget {
        name: "XW-2A".to_string(),
        norad_id: 40903,
        freq: 145_660_500,
        kind: "BpskTelemetry".to_string(),
    }];
    let ok = |dir: &str| resolve_pass_from_session_dir(&targets, dir, false, true, 0).unwrap();
    let (p, raw) = ok("data/20260909_074013_xw2a/");
    assert_eq!(p.satellite_name, "xw2a");
    assert_eq!(p.frequency_hz, 145_660_500);
    assert_eq!(p.signal_type, SignalType::CubeSatTelemetry);
    assert_eq!(raw, "data/20260909_074013_xw2a/raw.wav");
    assert_eq!(ok("d/1_ISS(ZARYA)").0.signal_type, SignalType::AprsPacket);
    assert_eq!(ok("d/1_NOAA19").0.frequency_hz, 137_100_000);
    let other = ok("d/other").0;
    assert_eq!((other.frequency_hz, other.signal_type), (145_660_000, SignalType::MorseCw));
    assert_eq!(
        resolve_pass_from_session_dir(&targets, "d/x", false, false, 0).err(),
        Some("セッションディレクトリ内に raw.u8 または raw.wav が存在しません: \"d/x\"".to_string())
    );
    assert_eq!(
        resolve_pass_from_session_dir(&targets, "d/..", true, false, 0).err(),
        Some("セッションディレクトリ名が無効です".to_string())
    );
    assert_eq!(
        match_signal("abc", &vec!["xabcx".to_string()], &targets),
        (145_660_500, SignalType::CubeSatTelemetry)
    );
}

#[test]
fn decoded_passes_are_announced_and_reported() {
    let p = pass("SO-50", SignalType::FmRepeater);
    let mut result = DecodeResult {
        image_path: Some("i.png".to_string()),
        audio_path: Some("a.wav".to_string()),
        telemetry_summary: Some("s".to_string()),
        telemetry: Some(SatelliteTelemetry {
            snr_db: None,
            lines_or_packets: Some("l".to_string()),
            housekeeping: vec![("k".to_string(), "v".to_string())],
            status: PassStatus::AudioRecorded,
        }),
    };
    assert_eq!(
        voice_message("SO-50", &result),
        "SO-50の画像デコードが完了したのだ！画像を確認するのだ！"
    );
    assert_eq!(describe_result(&result)[1], "   🖼️ 画像生成: \"i.png\"");
    let read = FilesRead { image: false, audio_len: Some(10), audio: true };
    let n = process_decode_job(&p, &Ok(result.clone()), read, true, true);
    assert_eq!(
        n.speech.as_deref(),
        Some("SO-50の画像デコードが完了したのだ！画像を確認するのだ！")
    );
    let r = n.report.unwrap();
    assert_eq!(r.pass_time_str, "2026-09-05 23:00:00 〜 23:10:00");
    assert_eq!(r.direction, "東南東 (ESE) (東側パス (見通し良好))");
    assert!(!r.has_image && r.has_audio);
    assert_eq!(r.telemetry.unwrap().housekeeping[0].1, "v");
    result.image_path = None;
    assert!(voice_message("SO-50", &result).contains("交信音声の録音"));
    result.audio_path = None;
    assert_eq!(voice_message("SO-50", &result), "SO-50のデータ保存が完了したのだ！");
    assert_eq!(describe_result(&result), ["   要約: s"]);
    let long = MAX_DISCORD_AUDIO_BYTES as u64 + 1;
    let all = FilesRead { image: true, audio_len: Some(long - 1), audio: true };
    let n = process_decode_job(&p, &Err("boom".to_string()), all, true, true);
    assert_eq!(n.speech, None);
    let r = n.report.unwrap();
    let t = r.telemetry.unwrap();
    assert_eq!(t.status, PassStatus::DecodeError);
    assert_eq!(t.housekeeping, [("エラー詳細".to_string(), "boom".to_string())]);
    assert!(!r.has_image && !r.has_audio);
    assert!(audio_fits(long - 1));
    assert!(!audio_fits(long));
    result.audio_path = Some("a.wav".to_string());
    let shown = |files: FilesRead| {
        process_decode_job(&p, &Ok(result.clone()), files, true, false).report.unwrap().has_audio
    };
    assert!(shown(all));
    assert!(!shown(FilesRead { audio_len: Some(long), ..all }));
    assert!(!shown(FilesRead { audio_len: None, ..all }));
    assert!(!shown(FilesRead { audio: false, ..all }));
    let quiet = process_decode_job(&p, &Ok(result.clone()), all, false, false);
    assert!(quiet.speech.is_none() && quiet.report.is_none());
    let lines = describe_session(&p, "d/raw.wav");
    assert_eq!(lines[2], "   下り周波数: 137.9000 MHz");
    assert_eq!(lines[3], "   生データ: \"d/raw.wav\"");
    let job = DecodeJob { pass: p, raw_path: "r".to_string(), session_dir: "s".to_string() };
    let task = job.task(true);
    assert_eq!(task.satellite_name, "SO-50");
    assert!(task.raw_exists);
}
