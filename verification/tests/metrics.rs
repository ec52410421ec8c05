use ground_station::binary64::Binary64;
use ground_station::clock::CivilTime;
use ground_station::decoder::DecodeResult;
use ground_station::discord::{PassStatus, SatelliteTelemetry};
use ground_station::metrics::{
    format_record, shown_clock, MetricsCollector, PassMetricRecord, PassMetricsSummary, PassOutcome,
    SatelliteStats,
};
use ground_station::orbit::{SatellitePass, SignalType};

fn d(x: f64) -> Binary64 {
    Binary64::from_bits(x.to_bits()).unwrap()
}

fn record(satellite: &str, outcome: PassOutcome, status: PassStatus) -> PassMetricRecord {
    PassMetricRecord {
        timestamp: "2026-09-15T10:00:00+09:00".to_string(),
        satellite: satellite.to_string(),
        frequency_hz: 137_900_000,
        signal_type: "LRPT".to_string(),
        max_elevation_deg: d(58.0),
        peak_azimuth_deg: d(45.0),
        status,
        outcome,
        content_viewable: outcome == PassOutcome::Success,
        content_summary: Some("LRPT 画像デコード成功 (RGB 可視光)".to_string()),
        session_dir: "data/noaa/session1".to_string(),
        has_image: true,
        has_audio: false,
        has_telemetry_or_text: false,
        duration_secs: Some(600),
    }
}

fn stats<'a>(s: &'a PassMetricsSummary, name: &str) -> &'a SatelliteStats {
    &s.satellite_stats.iter().find(|e| e.0 == name).unwrap().1
}

fn pass() -> SatellitePass {
    SatellitePass {
        satellite_name: "XW-2A".to_string(),
        frequency_hz: 145_660_000,
        signal_type: SignalType::MorseCw,
        aos: 1_000_000,
        los: 1_120_999,
        max_elevation_deg: d(22.7),
        peak_azimuth_deg: d(65.4),
    }
}

#[test]
fn test_pass_outcome_mapping_data_viewable_criteria() {
    let outcome_img = PassOutcome::from_status(PassStatus::ImageDecoded);
    assert_eq!(outcome_img, PassOutcome::Success);
    assert!(outcome_img.is_content_viewable());
    let outcome_tlm = PassOutcome::from_status(PassStatus::TelemetryDecoded);
    assert_eq!(outcome_tlm, PassOutcome::Success);
    assert!(outcome_tlm.is_content_viewable());
    let outcome_weak = PassOutcome::from_status(PassStatus::WeakSignal);
    assert_eq!(outcome_weak, PassOutcome::Failure);
    assert!(!outcome_weak.is_content_viewable());
    let outcome_err = PassOutcome::from_status(PassStatus::DecodeError);
    assert_eq!(outcome_err, PassOutcome::Failure);
    assert!(!outcome_err.is_content_viewable());
    let outcome_audio = PassOutcome::from_status(PassStatus::AudioRecorded);
    assert_eq!(outcome_audio, PassOutcome::Unknown);
    assert!(!outcome_audio.is_content_viewable());
    let outcome_raw = PassOutcome::from_status(PassStatus::RawPreserved);
    assert_eq!(outcome_raw, PassOutcome::Unknown);
    assert!(!outcome_raw.is_content_viewable());
    assert_eq!(outcome_raw.label(), "保留 (検知あきらめ)");
}

#[test]
fn test_metrics_collector_record_and_summary() {
    let records = [
        record("Meteor-M N2-3", PassOutcome::Success, PassStatus::ImageDecoded),
        record("FUNcube-1", PassOutcome::Failure, PassStatus::WeakSignal),
        record("SO-50", PassOutcome::Unknown, PassStatus::AudioRecorded),
    ];
    let summary = MetricsCollector::get_summary(&records);
    assert_eq!(summary.total_passes, 3);
    assert_eq!(summary.success_count, 1);
    assert_eq!(summary.failure_count, 1);
    assert_eq!(summary.unknown_count, 1);
    assert_eq!(summary.success_rate, d(50.0));
    assert_eq!(stats(&summary, "Meteor-M N2-3").success, 1);
    assert_eq!(stats(&summary, "FUNcube-1").failure, 1);
    assert_eq!(stats(&summary, "SO-50").unknown, 1);
}

#[test]
fn summary_is_sorted_and_adds_up() {
    let mut records = Vec::new();
    for (name, outcome) in [
        ("b", PassOutcome::Success),
        ("a", PassOutcome::Success),
        ("衛星", PassOutcome::Failure),
        ("b", PassOutcome::Success),
        ("B", PassOutcome::Unknown),
        ("ab", PassOutcome::Failure),
        ("b", PassOutcome::Failure),
    ] {
        records.push(record(name, outcome, PassStatus::ImageDecoded));
    }
    let s = MetricsCollector::get_summary(&records);
    let names: Vec<&str> = s.satellite_stats.iter().map(|e| e.0.as_str()).collect();
    assert_eq!(names, ["B", "a", "ab", "b", "衛星"]);
    assert_eq!(*stats(&s, "b"), SatelliteStats { total: 3, success: 2, failure: 1, unknown: 0 });
    assert_eq!(s.success_rate, d(50.0));
    assert_eq!(s.satellite_stats.iter().map(|e| e.1.total).sum::<usize>(), 7);
    let none = MetricsCollector::get_summary(&[]);
    assert_eq!(none.success_rate, d(0.0));
    for (success, failure) in [(1, 2), (2, 1), (3, 4), (5, 7), (0, 3), (9, 0), (29, 71)] {
        let mut some = Vec::new();
        for i in 0..success + failure {
            let outcome = if i < success { PassOutcome::Success } else { PassOutcome::Failure };
            some.push(record("a", outcome, PassStatus::ImageDecoded));
        }
        let rate = (success as f64 / (success + failure) as f64) * 100.0;
        assert_eq!(MetricsCollector::get_summary(&some).success_rate, d(rate));
    }
    assert_eq!(SatelliteStats::default().total, 0);
}

#[test]
fn recent_records_are_the_last() {
    let all: Vec<PassMetricRecord> = (0..5)
        .map(|i| record(&format!("s{}", i), PassOutcome::Success, PassStatus::ImageDecoded))
        .collect();
    let two = MetricsCollector::read_recent_records(all.clone(), 2);
    assert_eq!(two.len(), 2);
    assert_eq!(two[0].satellite, "s3");
    assert_eq!(MetricsCollector::read_recent_records(all, 9).len(), 5);
}

#[test]
fn record_of_a_result_and_of_an_error() {
    let result = DecodeResult {
        image_path: None,
        audio_path: Some("a.wav".to_string()),
        telemetry_summary: Some("s".to_string()),
        telemetry: Some(SatelliteTelemetry {
            snr_db: None,
            lines_or_packets: None,
            housekeeping: vec![],
            status: PassStatus::AudioRecorded,
        }),
    };
    let r = PassMetricRecord::from_pass_and_result(&pass(), &Ok(result.clone()), "dir", "t", true, true);
    assert_eq!(r.duration_secs, Some(120));
    assert_eq!(r.signal_type, "CubeSat Morse (モールスCW)");
    assert_eq!(r.outcome, PassOutcome::Unknown);
    assert!(!r.has_image && r.has_audio && !r.has_telemetry_or_text);
    let bare = DecodeResult { telemetry: None, ..result };
    let r = PassMetricRecord::from_pass_and_result(&pass(), &Ok(bare), "dir", "t", true, false);
    assert_eq!(r.status, PassStatus::RawPreserved);
    assert!(!r.has_audio);
    let mut back = pass();
    back.los = 0;
    let r = PassMetricRecord::from_pass_and_result(&back, &Err("x".to_string()), "dir", "t", true, true);
    assert_eq!(r.content_summary.as_deref(), Some("デコード異常終了: x"));
    assert_eq!(r.status, PassStatus::DecodeError);
    assert_eq!(r.outcome, PassOutcome::Failure);
    assert_eq!(r.duration_secs, Some(0));
    assert_eq!(r.session_dir, "dir");
}

#[test]
fn report_lines_are_aligned() {
    let mut one = record("Meteor-M N2-3", PassOutcome::Success, PassStatus::ImageDecoded);
    let mut two = record("SO-50", PassOutcome::Unknown, PassStatus::AudioRecorded);
    two.timestamp = "yesterday".to_string();
    two.content_summary = None;
    one.timestamp = "2026-09-15T18:45:00.5+09:00".to_string();
    let records = [one, two];
    let summary = MetricsCollector::get_summary(&records);
    let lines = MetricsCollector::print_metrics_report(&summary, &records);
    assert_eq!(lines[0], "");
    assert_eq!(
        lines[4],
        "総観測パス数: 2    | 成功 (中身確認済): 1    | 失敗 (微弱/エラー): 0    | 保留 (検知あきらめ): 1    | 成功率: 100.0%"
    );
    assert_eq!(lines[9], "Meteor-M N2-3      |        1 |        1 |        0 |        0 |   100.0%");
    assert_eq!(lines[10], "SO-50              |        1 |        0 |        0 |        1 |        -");
    assert_eq!(lines[12], "🕒 直近の観測履歴 (最大 2 件):");
    assert!(lines[15].starts_with("yesterday            | SO-50           | LRPT             |   58.0° | 保留"));
    assert!(lines[15].ends_with(&format!("| {:<30}", "-")));
    assert!(lines[16].starts_with("2026-09-15 18:45:00  | Meteor-M N2-3   |"));
    assert_eq!(lines.len(), 19);
    let empty = MetricsCollector::print_metrics_report(&MetricsCollector::get_summary(&[]), &[]);
    assert_eq!(empty[9], "(記録された観測データはまだありません)");
    assert_eq!(empty[14], "(履歴データはありません)");
}

#[test]
fn record_line_takes_the_time_as_read() {
    let rec = record("A", PassOutcome::Failure, PassStatus::WeakSignal);
    let c = CivilTime { year: 2026, month: 9, day: 5, hour: 7, minute: 5, second: 3 };
    let line = format_record(&rec, Some(c));
    assert!(line.starts_with("2026-09-05 07:05:03  | A               | LRPT"));
    assert!(format_record(&rec, None).starts_with("2026-09-15T10:00:00+09:00 | A"));
    assert_eq!(MetricsCollector::new("f".to_string()).file_path, "f");
}

#[test]
fn leap_seconds_are_shown() {
    let mut rec = record("A", PassOutcome::Failure, PassStatus::WeakSignal);
    rec.timestamp = "2017-01-01T08:59:60+09:00".to_string();
    let records = [rec];
    let lines =
        MetricsCollector::print_metrics_report(&MetricsCollector::get_summary(&records), &records);
    assert!(lines[14].starts_with("2017-01-01 08:59:60  | A "));
    let c = CivilTime { year: 2016, month: 12, day: 31, hour: 23, minute: 59, second: 59 };
    assert_eq!(shown_clock(Some((c, 999_999_999))), Some(c));
    assert_eq!(shown_clock(Some((c, 1_500_000_000))).unwrap().second, 60);
}
