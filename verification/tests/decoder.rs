use ground_station::binary64::Binary64;
use ground_station::config::SdrConfig;
use ground_station::decoder::{
    build_noaa_apt_args, build_satdump_cubesat_args, build_satdump_lrpt_args,
    build_satdump_lrpt_args_with_pipeline, extract_error_snippet, extract_telemetry_from_dir,
    find_best_image_in_dir, has_cadu_files, pipeline_for_lower_name,
    satdump_pipeline_for_satellite, CubeSatDecodeOutcome, DecodeResult, DecodeStep, DecodeTask,
    Decoder, DecoderEngine, FoundFile, Program, Rendering, RunReport,
};
use ground_station::discord::{PassStatus, SatelliteTelemetry};
use ground_station::orbit::SignalType;
use ground_station::receiver::{build_rtl_fm_args, build_rtl_sdr_args, create_wav_header};

fn d(x: f64) -> Binary64 {
    Binary64::from_bits(x.to_bits()).unwrap()
}

fn file(path: &str, len: u64, top_level: bool) -> FoundFile {
    FoundFile { path: path.to_string(), is_dir: false, len: Some(len), top_level }
}

fn task(name: &str, signal_type: SignalType, raw: &str) -> DecodeTask {
    DecodeTask {
        satellite_name: name.to_string(),
        frequency_hz: 437_625_000,
        signal_type,
        raw_path: raw.to_string(),
        raw_exists: true,
        session_dir: "data/s".to_string(),
    }
}

fn run() -> RunReport {
    RunReport {
        started: true,
        success: true,
        status: "exit status: 0".to_string(),
        stdout: String::new(),
        stderr: String::new(),
        product_exists: false,
        files: Vec::new(),
        telemetry: None,
    }
}

fn done(step: DecodeStep) -> DecodeResult {
    match step {
        DecodeStep::Done { result } => result,
        _ => panic!("{:?}", step),
    }
}

fn telemetry(r: &DecodeResult) -> &SatelliteTelemetry {
    r.telemetry.as_ref().unwrap()
}

fn item(t: &SatelliteTelemetry, label: &str) -> Option<String> {
    t.housekeeping.iter().find(|p| p.0 == label).map(|p| p.1.clone())
}

#[test]
fn test_rtl_fm_arguments_generation() {
    let sdr = SdrConfig { gain: d(40.0), sample_rate: 60000, ppm_error: 0 };
    let args = build_rtl_fm_args(137_912_500, &sdr);
    assert!(args.contains(&"-f".to_string()));
    assert!(args.contains(&"137912500".to_string()));
    assert!(args.contains(&"-s".to_string()));
    assert!(args.contains(&"60000".to_string()));
    assert!(args.contains(&"-g".to_string()));
    assert!(args.contains(&"40.0".to_string()));
    let off = SdrConfig { gain: d(40.0), sample_rate: 60000, ppm_error: -3 };
    let args = build_rtl_fm_args(137_912_500, &off);
    assert_eq!(args[12..], ["-p", "-3", "-"]);
}

#[test]
fn test_noaa_apt_arguments_generation() {
    let args = build_noaa_apt_args("data/noaa/test.wav", "data/noaa/test.png");
    assert_eq!(args[0], "data/noaa/test.wav");
    assert_eq!(args[1], "-o");
    assert_eq!(args[2], "data/noaa/test.png");
}

#[test]
fn test_wav_header_generation() {
    let header = create_wav_header(100);
    assert_eq!(&header[0..4], b"RIFF");
    assert_eq!(&header[8..12], b"WAVE");
    assert_eq!(&header[12..16], b"fmt ");
    assert_eq!(&header[36..40], b"data");
    assert_eq!(header.len(), 44);
}

#[test]
fn test_meteor_lrpt_arguments_generation() {
    let sdr = SdrConfig { gain: d(45.0), sample_rate: 240000, ppm_error: 0 };
    let raw_out = "data/noaa/meteor.raw";
    let sdr_args = build_rtl_sdr_args(137_900_000, &sdr, raw_out);
    assert!(sdr_args.contains(&"-f".to_string()));
    assert!(sdr_args.contains(&"137900000".to_string()));
    assert!(sdr_args.contains(&"-s".to_string()));
    assert!(sdr_args.contains(&"240000".to_string()));
    assert!(sdr_args.contains(&"-g".to_string()));
    assert!(sdr_args.contains(&"45.0".to_string()));
    let out_dir = "data/noaa";
    let satdump_args = build_satdump_lrpt_args(raw_out, out_dir);
    assert_eq!(satdump_args[0], "meteor_m2-x_lrpt_80k");
    assert_eq!(satdump_args[1], "baseband");
    assert_eq!(satdump_args[2], "data/noaa/meteor.raw");
    assert_eq!(satdump_args[3], "data/noaa");
    assert!(satdump_args.contains(&"--samplerate".to_string()));
    assert!(satdump_args.contains(&"240000".to_string()));
    assert!(satdump_args.contains(&"--baseband_format".to_string()));
    assert!(satdump_args.contains(&"cu8".to_string()));
}

#[test]
fn test_build_satdump_lrpt_args_with_pipeline() {
    let args = build_satdump_lrpt_args_with_pipeline("meteor_m2-x_lrpt", "test.raw", "out");
    assert_eq!(args[0], "meteor_m2-x_lrpt");
    assert_eq!(args[1], "baseband");
}

#[test]
fn test_satdump_pipeline_for_all_target_satellites() {
    assert_eq!(satdump_pipeline_for_satellite("UmKA-1"), Some("umka_1_dump"));
    assert_eq!(satdump_pipeline_for_satellite("RS40S"), Some("umka_1_dump"));
    assert_eq!(satdump_pipeline_for_satellite("FUNcube-1"), Some("funcube_1"));
    assert_eq!(satdump_pipeline_for_satellite("AO-73"), Some("funcube_1"));
    assert_eq!(satdump_pipeline_for_satellite("SONATE-2"), Some("sonate_2"));
    assert_eq!(satdump_pipeline_for_satellite("CAS-4A"), Some("cas_4a"));
    assert_eq!(satdump_pipeline_for_satellite("Meteor-M N2-4"), Some("meteor_m2-x_lrpt_80k"));
    assert_eq!(satdump_pipeline_for_satellite("ISS (ZARYA)"), Some("iss_sstv"));
    assert_eq!(satdump_pipeline_for_satellite("UNKNOWN_SAT"), None);
}

#[test]
fn pipelines_by_lower_case_name() {
    assert_eq!(pipeline_for_lower_name("rs-40"), Some("umka_1_dump"));
    assert_eq!(pipeline_for_lower_name("ao73"), Some("funcube_1"));
    assert_eq!(pipeline_for_lower_name("cas_4a"), Some("cas_4a"));
    assert_eq!(pipeline_for_lower_name("METEOR"), None);
    assert_eq!(satdump_pipeline_for_satellite("UM\u{212a}A"), Some("umka_1_dump"));
}

#[test]
fn test_build_satdump_cubesat_args_baseband_and_audio() {
    let args = build_satdump_cubesat_args("umka_1_dump", "data/session/raw.u8", "data/session", 240000);
    assert_eq!(args[0], "umka_1_dump");
    assert_eq!(args[1], "baseband");
    assert_eq!(args[2], "data/session/raw.u8");
    assert_eq!(args[3], "data/session");
    assert!(args.contains(&"--samplerate".to_string()));
    assert!(args.contains(&"240000".to_string()));
    assert!(args.contains(&"--baseband_format".to_string()));
    assert!(args.contains(&"cu8".to_string()));
    let args_wav =
        build_satdump_cubesat_args("umka_1_dump", "data/session/raw.wav", "data/session", 60000);
    assert_eq!(args_wav[0], "umka_1_dump");
    assert_eq!(args_wav[1], "audio");
    assert_eq!(args_wav[2], "data/session/raw.wav");
    assert_eq!(args_wav[3], "data/session");
    assert_eq!(args_wav.len(), 4);
    assert_eq!(build_satdump_cubesat_args("p", "RAW.WaV", "o", 1)[1], "audio");
    assert_eq!(build_satdump_cubesat_args("p", ".wav", "o", 1)[1], "baseband");
}

#[test]
fn test_find_best_image_in_dir_recursive() {
    let files = [file("t/small.png", 100, true), file("t/MSU-MR/large.jpg", 5000, false)];
    assert_eq!(find_best_image_in_dir(&files), Some("t/MSU-MR/large.jpg".to_string()));
}

#[test]
fn best_image_is_the_first_of_the_largest() {
    let mut files = vec![
        file("a.txt", 9000, true),
        file("b.PNG", 10, true),
        file("c.jpeg", 10, true),
        file(".png", 9000, true),
        file("png", 9000, true),
    ];
    assert_eq!(find_best_image_in_dir(&files), Some("b.PNG".to_string()));
    files.push(FoundFile { path: "d.png".to_string(), is_dir: true, len: Some(99), top_level: true });
    files.push(FoundFile { path: "e.png".to_string(), is_dir: false, len: None, top_level: true });
    assert_eq!(find_best_image_in_dir(&files), Some("b.PNG".to_string()));
    assert_eq!(find_best_image_in_dir(&files[..1]), None);
}

#[test]
fn cadu_files_count_in_the_directory_itself() {
    assert!(has_cadu_files(&[file("x.png", 1, true), file("x.cadu", 1, true)]));
    assert!(!has_cadu_files(&[file("sub/x.cadu", 1, false)]));
    assert!(!has_cadu_files(&[file("x.CADU", 1, true)]));
}

#[test]
fn test_extract_telemetry_from_dir_parses_json() {
    let text = r#"{
            "battery_voltage": 3.98,
            "temp_c": 15.4,
            "transmitter_on": true,
            "callsign": "RS40S",
            "frame_id": 142
        }"#;
    let tlm = extract_telemetry_from_dir(&Some(text.to_string()));
    assert!(tlm.is_some());
    let map: std::collections::HashMap<_, _> = tlm.unwrap().into_iter().collect();
    assert_eq!(map.get("battery_voltage").map(|s| s.as_str()), Some("3.98"));
    assert_eq!(map.get("temp_c").map(|s| s.as_str()), Some("15.4"));
    assert_eq!(map.get("transmitter_on").map(|s| s.as_str()), Some("true"));
    assert_eq!(map.get("callsign").map(|s| s.as_str()), Some("RS40S"));
    assert_eq!(map.get("frame_id").map(|s| s.as_str()), Some("142"));
}

#[test]
fn telemetry_is_flattened_up_to_ten_items() {
    let text = r#"{"a": {"b": {"c": null}, "d": [1, 2, 3]}, "e": false}"#;
    let items = extract_telemetry_from_dir(&Some(text.to_string())).unwrap();
    let shown: Vec<String> = items.iter().map(|i| format!("{}={}", i.0, i.1)).collect();
    assert_eq!(shown, ["a.b.c=null", "a.d=[3 elements]", "e=false"]);
    let many = r#"{"x": {"a":1,"b":2,"c":3,"d":4,"e":5,"f":6}, "y": {"a":1,"b":2,"c":3,"d":4,"e":5,"f":6}, "z": 1}"#;
    let items = extract_telemetry_from_dir(&Some(many.to_string())).unwrap();
    assert_eq!(items.len(), 10);
    assert_eq!(items[9], ("y.d".to_string(), "4".to_string()));
    assert_eq!(extract_telemetry_from_dir(&Some("{}".to_string())), None);
    assert_eq!(extract_telemetry_from_dir(&Some("{".to_string())), None);
    assert_eq!(extract_telemetry_from_dir(&None), None);
    assert_eq!(
        extract_telemetry_from_dir(&Some("\"x\"".to_string())),
        Some(vec![(String::new(), "x".to_string())])
    );
}

#[test]
fn error_snippet_is_the_last_three_lines() {
    assert_eq!(extract_error_snippet("a\n\n b \r\nc\nd\n", "out"), " b ; c; d");
    assert_eq!(extract_error_snippet(" \n\t", "only\n"), "only");
    assert_eq!(extract_error_snippet("", "\u{3000}\n"), "詳細ログなし");
}

#[test]
fn test_decoder_engine_routing() {
    let t = task("UmKA-1", SignalType::CubeSatSstv, "data/s/raw.wav");
    assert!(matches!(DecoderEngine::decode(&t), DecodeStep::Prepare));
    assert!(matches!(
        DecoderEngine::after_prepare(&t, true, true),
        DecodeStep::Look { program: Program::Satdump }
    ));
    let res = done(DecoderEngine::after_look(&t, false));
    let tel = res.telemetry.as_ref().expect("telemetry が存在すること");
    assert_eq!(tel.status, PassStatus::RawPreserved);
    assert_eq!(tel.snr_db, None);
    assert!(tel.housekeeping.iter().any(|(k, v)| k == "生データ" && v.contains("保全完了")));
    assert!(tel
        .housekeeping
        .iter()
        .any(|(k, v)| k == "デコード状況" && (v.contains("未導入") || v.contains("スキップ"))));
    assert!(!tel.housekeeping.iter().any(|(_, v)| v == "復調成功"));
    assert_eq!(
        res.telemetry_summary.as_deref(),
        Some("CubeSat UmKA-1 (CubeSat SSTV (カメラ画像)) 生データ保存完了 (SatDump未導入)")
    );
    assert_eq!(res.audio_path.as_deref(), Some("data/s/raw.wav"));
    assert_eq!(item(tel, "保存ファイル").as_deref(), Some("raw.wav"));
}

#[test]
fn cubesat_run_and_outcomes() {
    let t = task("UmKA-1", SignalType::CubeSatTelemetry, "data/s/raw.u8");
    match DecoderEngine::after_look(&t, true) {
        DecodeStep::Run { program, args, attempt } => {
            assert_eq!(program.command(), "satdump");
            assert_eq!(attempt, 0);
            assert_eq!(args[..4], ["umka_1_dump", "baseband", "data/s/raw.u8", "data/s"]);
        }
        s => panic!("{:?}", s),
    }
    let unknown = task("X", SignalType::AprsPacket, "data/s/raw.u8");
    let r = done(DecoderEngine::after_look(&unknown, true));
    assert_eq!(item(telemetry(&r), "デコード状況").as_deref(), Some("X 用パイプライン未設定 (生IQ保全)"));

    let mut report = run();
    report.files = vec![file("data/s/a.png", 1, true)];
    report.telemetry = Some("{\"v\": 1}".to_string());
    let r = done(DecoderEngine::after_run(&t, 0, &report));
    assert_eq!(r.image_path.as_deref(), Some("data/s/a.png"));
    assert_eq!(telemetry(&r).status, PassStatus::ImageDecoded);
    assert_eq!(item(telemetry(&r), "画像形式").as_deref(), Some("a.png"));
    assert_eq!(item(telemetry(&r), "v").as_deref(), Some("1"));

    report.files.clear();
    let r = done(DecoderEngine::after_run(&t, 0, &report));
    assert_eq!(telemetry(&r).status, PassStatus::TelemetryDecoded);
    assert_eq!(item(telemetry(&r), "復調方式").as_deref(), Some("SatDump [umka_1_dump]"));

    report.telemetry = None;
    report.files = vec![file("data/s/a.cadu", 1, true)];
    let r = done(DecoderEngine::after_run(&t, 0, &report));
    assert_eq!(item(telemetry(&r), "パケット保全").as_deref(), Some("CADU/フレーム保存完了"));

    report.files.clear();
    let r = done(DecoderEngine::after_run(&t, 0, &report));
    assert_eq!(telemetry(&r).status, PassStatus::WeakSignal);

    report.success = false;
    report.stderr = "boom\n".to_string();
    let r = done(DecoderEngine::after_run(&t, 0, &report));
    assert_eq!(telemetry(&r).status, PassStatus::DecodeError);
    assert_eq!(item(telemetry(&r), "エラー詳細").as_deref(), Some("boom"));
    report.stdout = "Lines  : 0".to_string();
    assert!(matches!(Decoder::decode_cubesat(&report), CubeSatDecodeOutcome::WeakSignal));

    report.started = false;
    let r = done(DecoderEngine::after_run(&t, 0, &report));
    assert_eq!(
        r.telemetry_summary.as_deref(),
        Some("生データ保存済み (エラー: satdump コマンドの実行に失敗しました)")
    );
}

#[test]
fn preparation_failures_are_told() {
    let t = task("UmKA-1", SignalType::CubeSatTelemetry, "data/s/raw.u8");
    let r = done(DecoderEngine::after_prepare(&t, false, true));
    assert_eq!(
        r.telemetry_summary.as_deref(),
        Some("生データ保存済み (エラー: 入力生データファイルが存在しません: \"data/s/raw.u8\")")
    );
    let r = done(DecoderEngine::after_prepare(&t, true, false));
    assert_eq!(
        r.telemetry_summary.as_deref(),
        Some("生データ保存済み (エラー: 出力ディレクトリ作成失敗: \"data/s\")")
    );
    let mut slash = task("NOAA 18", SignalType::Apt, "data/s/raw.wav");
    slash.session_dir = "data/s/".to_string();
    let r = done(DecoderEngine::after_prepare(&slash, true, false));
    assert_eq!(
        r.telemetry_summary.as_deref(),
        Some("生データ保存済み (デコード未完: ディレクトリ作成失敗: \"data/s\")")
    );
    let apt = task("NOAA 18", SignalType::Apt, "data/s/a\"b.wav");
    let r = done(DecoderEngine::after_prepare(&apt, false, true));
    assert_eq!(
        item(telemetry(&r), "エラー詳細").as_deref(),
        Some("入力WAVファイルが存在しません: \"data/s/a\\\"b.wav\"")
    );
    assert_eq!(telemetry(&r).status, PassStatus::WeakSignal);
    let lrpt = task("M", SignalType::Lrpt, "r.u8");
    let r = done(DecoderEngine::after_prepare(&lrpt, false, true));
    assert_eq!(telemetry(&r).status, PassStatus::DecodeError);
    assert!(r.audio_path.is_none());
}

#[test]
fn test_meteor_lrpt_decoder_routing_and_fallback() {
    let t = task("Meteor-M N2-4", SignalType::Lrpt, "data/s/raw.u8");
    assert!(matches!(
        DecoderEngine::decode(&t),
        DecodeStep::Look { program: Program::Satdump }
    ));
    let res = done(DecoderEngine::after_look(&t, false));
    assert!(res.telemetry_summary.is_some());
    assert!(res.telemetry.is_some());
    let tel = res.telemetry.unwrap();
    assert_eq!(tel.status, PassStatus::RawPreserved);
    assert_eq!(tel.snr_db, None);
}

#[test]
fn meteor_is_tried_with_two_pipelines() {
    let t = task("Meteor-M N2-4", SignalType::Lrpt, "data/s/raw.u8");
    match DecoderEngine::after_prepare(&t, true, true) {
        DecodeStep::Run { args, attempt, .. } => {
            assert_eq!(args[0], "meteor_m2-x_lrpt_80k");
            assert_eq!(attempt, 0);
        }
        s => panic!("{:?}", s),
    }
    let mut report = run();
    match DecoderEngine::after_run(&t, 0, &report) {
        DecodeStep::Run { args, attempt, .. } => {
            assert_eq!(args[0], "meteor_m2-x_lrpt");
            assert_eq!(attempt, 1);
        }
        s => panic!("{:?}", s),
    }
    let r = done(DecoderEngine::after_run(&t, 1, &report));
    assert_eq!(telemetry(&r).lines_or_packets.as_deref(), Some("0 lines (電波微弱)"));
    report.files = vec![file("x.cadu", 1, true)];
    let r = done(DecoderEngine::after_run(&t, 1, &report));
    assert_eq!(item(telemetry(&r), "フレーム同期").as_deref(), Some("不完全 (電波微弱)"));
    report.telemetry = Some("{\"k\": \"v\"}".to_string());
    let r = done(DecoderEngine::after_run(&t, 1, &report));
    assert_eq!(telemetry(&r).status, PassStatus::TelemetryDecoded);
    assert_eq!(item(telemetry(&r), "k").as_deref(), Some("v"));
    report.files.push(file("data/s/MSU-MR/rgb.png", 5, false));
    // An image of a run that failed counts after the second pipeline.
    report.success = false;
    assert!(matches!(
        DecoderEngine::after_run(&t, 0, &report),
        DecodeStep::Run { attempt: 1, .. }
    ));
    let r = done(DecoderEngine::after_run(&t, 1, &report));
    assert_eq!(r.image_path.as_deref(), Some("data/s/MSU-MR/rgb.png"));
    assert_eq!(telemetry(&r).status, PassStatus::ImageDecoded);
    report.started = false;
    let r = done(DecoderEngine::after_run(&t, 1, &report));
    assert_eq!(telemetry(&r).status, PassStatus::DecodeError);
}

#[test]
fn test_decoder_engine_apt_audio_path_setting() {
    let t = task("NOAA 18", SignalType::Apt, "data/s/audio.wav");
    assert!(matches!(
        DecoderEngine::decode(&t),
        DecodeStep::Look { program: Program::NoaaApt }
    ));
    let res = done(DecoderEngine::after_look(&t, false));
    assert_eq!(res.audio_path, Some("data/s/audio.wav".to_string()));
    let tel = res.telemetry.unwrap();
    assert_eq!(tel.status, PassStatus::RawPreserved);
    assert_eq!(tel.snr_db, None);
}

#[test]
fn apt_image_needs_success_and_a_file() {
    let t = task("NOAA 18", SignalType::Apt, "data/s/audio.wav");
    match DecoderEngine::after_prepare(&t, true, true) {
        DecodeStep::Run { program: Program::NoaaApt, args, .. } => {
            assert_eq!(args, ["data/s/audio.wav", "-o", "data/s/image.png"]);
        }
        s => panic!("{:?}", s),
    }
    let mut report = run();
    report.product_exists = true;
    let r = done(DecoderEngine::after_run(&t, 0, &report));
    assert_eq!(r.image_path.as_deref(), Some("data/s/image.png"));
    assert_eq!(item(telemetry(&r), "生成画像").as_deref(), Some("image.png"));
    report.success = false;
    report.status = "exit status: 2".to_string();
    report.stdout = "bad".to_string();
    let r = done(DecoderEngine::after_run(&t, 0, &report));
    assert_eq!(
        r.telemetry_summary.as_deref(),
        Some("生データ保存済み (デコード未完: noaa-apt が異常終了しました (status exit status: 2): bad)")
    );
    assert!(r.image_path.is_none());
    report.success = true;
    report.product_exists = false;
    assert_eq!(
        Decoder::decode_apt(&t, &report),
        Err("デコード画像が生成されませんでした: \"data/s/image.png\"".to_string())
    );
    report.started = false;
    assert!(Decoder::decode_apt(&t, &report).unwrap_err().contains("インストール"));
}

#[test]
fn test_decoder_engine_fm_repeater_audio_path_and_telemetry() {
    let mut t = task("SO-50", SignalType::FmRepeater, "data/s/raw.wav");
    t.frequency_hz = 436_795_000;
    let res = done(DecoderEngine::decode(&t));
    assert_eq!(res.audio_path, Some("data/s/raw.wav".to_string()));
    assert!(res.image_path.is_none());
    assert!(res.telemetry.is_some());
    let tel = res.telemetry.unwrap();
    assert_eq!(tel.status, PassStatus::AudioRecorded);
    assert_eq!(tel.snr_db, None);
    assert!(tel.lines_or_packets.as_deref().unwrap_or("").contains("FM 音声復調完了"));
    let hk_map: std::collections::HashMap<_, _> = tel.housekeeping.into_iter().collect();
    assert_eq!(hk_map.get("中継方式").map(|s| s.as_str()), Some("FM ボイストランスポンダー"));
    assert!(hk_map.contains_key("アクセス仕様"));
    t.satellite_name = "AO-91".to_string();
    t.raw_exists = false;
    let res = done(DecoderEngine::decode(&t));
    assert_eq!(
        item(telemetry(&res), "アクセス仕様").as_deref(),
        Some("Downlink: 436.7950 MHz FM")
    );
    assert!(res.audio_path.is_none());
}

#[test]
fn iss_images_count_even_without_a_run() {
    let t = task("ISS (ZARYA)", SignalType::IssSstv, "data/s/raw.wav");
    let r = done(DecoderEngine::after_look(&t, false));
    assert_eq!(telemetry(&r).status, PassStatus::RawPreserved);
    match DecoderEngine::after_prepare(&t, true, true) {
        DecodeStep::Run { args, .. } => {
            assert_eq!(args, ["iss_sstv", "audio", "data/s/raw.wav", "data/s"]);
        }
        s => panic!("{:?}", s),
    }
    let mut report = run();
    report.started = false;
    let r = done(DecoderEngine::after_run(&t, 0, &report));
    assert_eq!(r.telemetry_summary.as_deref(), Some("ISS SSTV 音声録音完了 (画像未検出)"));
    report.files = vec![file("data/s/sstv.png", 3, true)];
    let r = done(DecoderEngine::after_run(&t, 0, &report));
    assert_eq!(telemetry(&r).status, PassStatus::ImageDecoded);
    assert_eq!(item(telemetry(&r), "生成画像").as_deref(), Some("sstv.png"));
}

#[test]
fn test_decoder_morse_cw_end_to_end() {
    let t = task("XW-2A", SignalType::MorseCw, "data/s/raw.u8");
    assert!(matches!(DecoderEngine::decode(&t), DecodeStep::Render));
    let result = done(DecoderEngine::after_render(
        &t,
        Some(Rendering {
            audio_path: "data/s/audio.wav".to_string(),
            image_path: "data/s/spectrogram.png".to_string(),
            morse: Some("DF".to_string()),
        }),
    ));
    assert!(result.audio_path.is_some(), "WAV 音声パスが返却されていません");
    assert!(result.image_path.is_some(), "スペクトログラム画像パスが返却されていません");
    assert_eq!(result.telemetry.as_ref().unwrap().status, PassStatus::AudioRecorded);
    assert_eq!(item(telemetry(&result), "モールス解読").as_deref(), Some("DF"));
    let summary = result.telemetry_summary.unwrap();
    assert!(summary.contains("XW-2A") && summary.contains("CW"));
    assert!(matches!(DecoderEngine::after_render(&t, None), DecodeStep::Prepare));
}
