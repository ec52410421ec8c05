use ground_station::config::{CubeSatsConfig, SatellitesConfig, VoicevoxConfig};
use ground_station::health::{
    preflight_file, probe_external_tools, probe_rtl_sdr, probe_storage, probe_voicevox,
    run_preflight_checks, version_url, HealthCheckItem, HealthReport, HealthStatus, RtlProbe,
    StorageProbe, ToolsFound, VoicevoxProbe,
};

fn voicevox(enabled: bool) -> VoicevoxConfig {
    VoicevoxConfig {
        enabled,
        host: "http://localhost:50021//".to_string(),
        speaker_id: 3,
        timeout_secs: 15,
    }
}

const ALL: ToolsFound =
    ToolsFound { rtl_fm: true, rtl_sdr: true, satdump: true, gr_satellites: true };

#[test]
fn test_health_report_fatal_check() {
    let report_err = HealthReport {
        items: vec![
            HealthCheckItem {
                name: "RTL-SDR Device".to_string(),
                status: HealthStatus::Error,
                message: "デバイス未検出".to_string(),
                remedy: Some("usbipd attach を実行してください".to_string()),
            },
            HealthCheckItem {
                name: "VOICEVOX".to_string(),
                status: HealthStatus::Warn,
                message: "未起動".to_string(),
                remedy: None,
            },
        ],
    };
    assert!(report_err.is_fatal());

    let report_ok = HealthReport {
        items: vec![
            HealthCheckItem {
                name: "RTL-SDR Device".to_string(),
                status: HealthStatus::Healthy,
                message: "正常 (RTL2838UHIDIR)".to_string(),
                remedy: None,
            },
            HealthCheckItem {
                name: "VOICEVOX".to_string(),
                status: HealthStatus::Warn,
                message: "未起動 (ログ出力のみ)".to_string(),
                remedy: None,
            },
        ],
    };
    assert!(!report_ok.is_fatal());
    assert!(report_ok.has_warning());
}

#[test]
fn table_shows_items_remedies_and_verdict() {
    let report = HealthReport {
        items: vec![HealthCheckItem {
            name: "VOICEVOX".to_string(),
            status: HealthStatus::Warn,
            message: "未起動".to_string(),
            remedy: Some("起動".to_string()),
        }],
    };
    let lines = report.print_table();
    assert_eq!(lines.len(), 8);
    assert_eq!(lines[3], "[WARN] VOICEVOX                : 未起動");
    assert_eq!(lines[4], "       -> 対処法: 起動");
    assert_eq!(lines[6], "⚠️ 警告がありますが、運用を継続可能です（生データ保存モード）。");
    let none = HealthReport { items: vec![] };
    assert_eq!(none.print_table()[4], "✅ すべてのヘルスチェック項目をクリアしました！");
}

#[test]
fn receiver_probe_results() {
    assert_eq!(probe_rtl_sdr(&RtlProbe::StillRunning).status, HealthStatus::Healthy);
    assert_eq!(probe_rtl_sdr(&RtlProbe::Ended { success: true }).message, "デバイス認識正常");
    let gone = probe_rtl_sdr(&RtlProbe::Ended { success: false });
    assert_eq!(gone.status, HealthStatus::Error);
    assert!(gone.remedy.unwrap().contains("usbipd attach"));
    assert_eq!(
        probe_rtl_sdr(&RtlProbe::NoCommand).message,
        "rtl_test コマンドが見つかりません"
    );
    assert_eq!(
        probe_rtl_sdr(&RtlProbe::NotStarted("x".to_string())).message,
        "rtl_test プロセス起動失敗: x"
    );
    assert_eq!(
        probe_rtl_sdr(&RtlProbe::WaitFailed("x".to_string())).message,
        "rtl_test 実行エラー: x"
    );
}

#[test]
fn tools_are_looked_for_as_needed() {
    let mut sats = SatellitesConfig::default();
    assert_eq!(probe_external_tools(&sats, ALL).len(), 3);
    sats.cubesats = CubeSatsConfig { enabled: true, targets: vec![] };
    let none = ToolsFound { rtl_fm: false, rtl_sdr: false, satdump: false, gr_satellites: false };
    let items = probe_external_tools(&sats, none);
    let status: Vec<HealthStatus> = items.iter().map(|i| i.status).collect();
    assert_eq!(
        status,
        [HealthStatus::Error, HealthStatus::Warn, HealthStatus::Warn, HealthStatus::Warn]
    );
    assert_eq!(items[1].name, "rtl_sdr (IQ Recorder)");
    assert_eq!(items[1].remedy.as_deref(), Some("sudo apt install rtl-sdr を実行してください"));
    assert!(items.iter().all(|i| i.remedy.is_some()));
    sats.cubesats.enabled = false;
    sats.enable_meteor = false;
    assert_eq!(probe_external_tools(&sats, none).len(), 2);
}

#[test]
fn speech_probe_results() {
    assert_eq!(version_url(&voicevox(true)), "http://localhost:50021/version");
    let off = probe_voicevox(&voicevox(false), &VoicevoxProbe::Unreachable);
    assert_eq!(off.status, HealthStatus::Healthy);
    let up = probe_voicevox(&voicevox(true), &VoicevoxProbe::Answered(Some(" \"0.14\"\n".to_string())));
    assert_eq!(up.message, "正常稼働中 (version \"0.14\")");
    let odd = probe_voicevox(&voicevox(true), &VoicevoxProbe::Answered(None));
    assert_eq!(odd.message, "正常稼働中 (version 不明)");
    let down = probe_voicevox(&voicevox(true), &VoicevoxProbe::Unreachable);
    assert_eq!(down.status, HealthStatus::Warn);
    assert!(down.message.starts_with("接続不能 (http://localhost:50021// に"));
    let no = probe_voicevox(&voicevox(true), &VoicevoxProbe::NoClient("tls".to_string()));
    assert_eq!(no.message, "HTTPクライアント初期化失敗: tls");
}

#[test]
fn storage_probe_results() {
    assert_eq!(preflight_file("data/x/"), "data/x/.preflight_test");
    let ok = probe_storage("data", &StorageProbe::Writable);
    assert_eq!(ok.message, "書き込み・削除確認完了 (data)");
    let bad = probe_storage("data", &StorageProbe::NotWritable("denied".to_string()));
    assert_eq!(bad.message, "書き込みテスト失敗 (data/.preflight_test): denied");
    let no = probe_storage("data", &StorageProbe::NoDirectory("denied".to_string()));
    assert_eq!(no.message, "ディレクトリ作成失敗 (data): denied");
    assert_eq!(no.status, HealthStatus::Error);
}

#[test]
fn only_reception_is_vital() {
    let sats = SatellitesConfig::default();
    let tools = ToolsFound { rtl_sdr: false, satdump: false, gr_satellites: false, ..ALL };
    let report = run_preflight_checks(
        &RtlProbe::StillRunning,
        &sats,
        tools,
        &voicevox(true),
        &VoicevoxProbe::Unreachable,
        "data",
        &StorageProbe::Writable,
    );
    assert_eq!(report.items.len(), 6);
    assert!(!report.is_fatal());
    let report = run_preflight_checks(
        &RtlProbe::NoCommand,
        &sats,
        ALL,
        &voicevox(true),
        &VoicevoxProbe::Answered(None),
        "data",
        &StorageProbe::Writable,
    );
    assert!(report.is_fatal());
    assert_eq!(report.items[5].name, "Storage Access");
}
