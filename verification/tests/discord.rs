use chrono::Utc;
use ground_station::adsb::sample_alert;
use ground_station::binary64::Binary64;
use ground_station::config::DiscordConfig;
use ground_station::discord::{
    aircraft_send_result, elevation_evaluation, format_feet, format_mhz, frequency_band_desc,
    satellite_summary_desc, schedule_send_result, snr_quality, summary_of_lower_name,
    DiscordClient, Embed, EmbedField, FileKind, PassReport, PassStatus, SatelliteTelemetry,
    SendOutcome, MAX_DISCORD_AUDIO_BYTES,
};
use ground_station::orbit::{SatellitePass, SignalType};

fn d(x: f64) -> Binary64 {
    Binary64::from_bits(x.to_bits()).unwrap()
}

fn field<'a>(embed: &'a Embed, name: &str) -> Option<&'a EmbedField> {
    embed.fields.iter().find(|f| f.name == name)
}

fn now_text() -> String {
    Utc::now().to_rfc3339()
}

fn now_ms() -> i64 {
    Utc::now().timestamp_millis()
}

fn client(enabled: bool, url: Option<&str>) -> DiscordClient {
    DiscordClient::new(DiscordConfig { enabled, webhook_url: url.map(|u| u.to_string()) })
}

#[test]
fn test_build_embed_with_image_and_telemetry() {
    let telemetry = SatelliteTelemetry {
        snr_db: Some(d(18.2)),
        lines_or_packets: Some("2,180 有効走査線".to_string()),
        housekeeping: vec![
            ("バッテリ".to_string(), "8.24 V".to_string()),
            ("センサ温度".to_string(), "+14.2°C".to_string()),
        ],
        status: PassStatus::ImageDecoded,
    };
    let report = PassReport {
        satellite_name: "NOAA 18".to_string(),
        signal_type_name: "APT (2.4kHz AM)".to_string(),
        max_elevation_deg: d(52.5),
        direction: "東南東 (ESE)".to_string(),
        frequency_hz: 137_912_500,
        pass_time_str: "2026-09-04 12:13:00 〜 12:20:00 (7分00秒)".to_string(),
        telemetry: Some(telemetry),
        has_image: true,
        has_audio: true,
        next_pass_info: Some("🛰️ **NOAA 19** (22:08 〜 40.7° 西南西)".to_string()),
    };
    let embed = DiscordClient::build_embed(&report, &now_text());
    assert_eq!(embed.color, 0x2ECC71);
    assert_eq!(embed.title, "🛰️ NOAA 18 [APT (2.4kHz AM)] 受信・デコード完了");
    assert!(embed.description.contains("画像デコード成功"));
    assert!(embed.description.contains("NOAA 18"));
    assert!(embed.timestamp.is_some());
    assert_eq!(embed.image_url.as_deref(), Some("attachment://satellite_image.png"));

    let geom_field =
        field(&embed, "📐 軌道ジオメトリ").expect("軌道ジオメトリフィールドが存在すること");
    assert_eq!(geom_field.inline, true);
    assert!(geom_field.value.contains("52.5°"));
    assert!(geom_field.value.contains("東南東 (ESE)"));
    let sdr_field = field(&embed, "📡 無線・SDR諸元").expect("無線諸元フィールドが存在すること");
    assert_eq!(sdr_field.inline, true);
    assert!(sdr_field.value.contains("137.9125 MHz"));
    let telemetry_field =
        field(&embed, "⚡ 復調成果 & ヘルス").expect("復調成果フィールドが存在すること");
    assert_eq!(telemetry_field.inline, false);
    assert!(telemetry_field.value.contains("```yaml"));
    assert!(telemetry_field.value.contains("バッテリ: 8.24 V"));
    assert!(telemetry_field.value.contains("センサ温度: +14.2°C"));
    assert!(telemetry_field.value.contains("18.2 dB"));
    assert_eq!(
        telemetry_field.value,
        "```yaml\n復調実績: 2,180 有効走査線\n信号品質 (SNR): 18.2 dB (極めて明瞭)\nバッテリ: 8.24 V\nセンサ温度: +14.2°C\n```"
    );
    let audio_field = field(&embed, "🎵 受信音声 (WAV)").expect("音声フィールドが存在すること");
    assert!(audio_field.value.contains("インライン再生可能"));
    let next_field = field(&embed, "⏰ 次の通過予定").expect("次回パスフィールドが存在すること");
    assert!(next_field.value.contains("NOAA 19"));
}

#[test]
fn test_build_embed_without_image_does_not_have_image_url() {
    let telemetry = SatelliteTelemetry {
        snr_db: Some(d(12.0)),
        lines_or_packets: Some("42 パケット復調".to_string()),
        housekeeping: vec![("電圧".to_string(), "4.1 V".to_string())],
        status: PassStatus::TelemetryDecoded,
    };
    let report = PassReport {
        satellite_name: "FUNcube-1".to_string(),
        signal_type_name: "BPSK Telemetry".to_string(),
        max_elevation_deg: d(35.0),
        direction: "北東 (NE)".to_string(),
        frequency_hz: 145_935_000,
        pass_time_str: "2026-09-04 15:00:00 〜 15:08:00".to_string(),
        telemetry: Some(telemetry),
        has_image: false,
        has_audio: false,
        next_pass_info: None,
    };
    let embed = DiscordClient::build_embed(&report, &now_text());
    assert_eq!(embed.color, 0x3498DB);
    assert!(embed.image_url.is_none());
    assert_eq!(embed.fields.len(), 3);
}

#[test]
fn test_create_test_sample_image_returns_valid_png() {
    let image_bytes = DiscordClient::create_test_sample_image();
    assert!(!image_bytes.is_empty());
    assert_eq!(&image_bytes[0..8], b"\x89PNG\r\n\x1a\n");
    assert_eq!(image_bytes.len(), 69);
    assert_eq!(&image_bytes[61..65], b"IEND");
}

#[test]
fn test_build_daily_schedule_embed() {
    let pass = SatellitePass {
        satellite_name: "NOAA 18".to_string(),
        frequency_hz: 137_912_500,
        signal_type: SignalType::Apt,
        aos: now_ms(),
        los: now_ms() + 10 * 60_000,
        max_elevation_deg: d(52.5),
        peak_azimuth_deg: d(120.0),
    };
    let embed = DiscordClient::build_daily_schedule_embed(
        &[pass],
        "2026-09-06",
        d(35.68),
        d(139.76),
        d(25.0),
    );
    assert_eq!(embed.color, 0x3498DB);
    assert!(embed.title.contains("2026-09-06"));
    assert_eq!(embed.fields.len(), 1);
    assert!(embed.fields[0].name.contains("NOAA 18"));
    assert!(embed.fields[0].value.contains("52.5°"));
}

#[test]
fn test_build_daily_schedule_embed_truncation_footer() {
    let mut passes = Vec::new();
    for i in 0..30 {
        passes.push(SatellitePass {
            satellite_name: format!("Sat-{}", i + 1),
            frequency_hz: 137_912_500,
            signal_type: SignalType::Apt,
            aos: now_ms() + i * 30 * 60_000,
            los: now_ms() + (i * 30 + 10) * 60_000,
            max_elevation_deg: d(45.0),
            peak_azimuth_deg: d(90.0),
        });
    }
    let embed = DiscordClient::build_daily_schedule_embed(
        &passes,
        "2026-09-06",
        d(35.68),
        d(139.76),
        d(20.0),
    );
    assert_eq!(embed.fields.len(), 25);
    assert!(embed.footer.contains("全 30 件中 25 件を表示"));
    assert!(embed.footer.contains("他 5 件"));
}

#[test]
fn test_build_24h_schedule_embed_with_next_day_passes() {
    let tomorrow_pass = SatellitePass {
        satellite_name: "Meteor-M N2-4".to_string(),
        frequency_hz: 137_900_000,
        signal_type: SignalType::Lrpt,
        aos: now_ms() + 20 * 3_600_000,
        los: now_ms() + 20 * 3_600_000 + 12 * 60_000,
        max_elevation_deg: d(65.0),
        peak_azimuth_deg: d(180.0),
    };
    let embed = DiscordClient::build_24h_schedule_embed(
        &[tomorrow_pass],
        d(35.68),
        d(139.76),
        d(20.0),
        now_ms(),
    );
    assert!(embed.title.contains("今後24時間の衛星通過予定"));
    assert_eq!(embed.fields.len(), 1);
    assert!(embed.fields[0].name.contains("Meteor-M N2-4"));
}

#[test]
fn schedule_fields_are_exact() {
    // 2026-09-05 14:00 UTC is 23:00 in Japan.
    let pass = SatellitePass {
        satellite_name: "NOAA 18".to_string(),
        frequency_hz: 137_912_500,
        signal_type: SignalType::Apt,
        aos: 1_788_616_800_000,
        los: 1_788_617_459_999,
        max_elevation_deg: d(52.54),
        peak_azimuth_deg: d(200.0),
    };
    let daily = DiscordClient::build_daily_schedule_embed(
        &[pass.clone()],
        "2026-09-05",
        d(35.7903),
        d(139.2584),
        d(15.0),
    );
    assert_eq!(daily.fields[0].name, "1. 🛰️ NOAA 18 [NOAA APT (アナログ)]");
    assert_eq!(
        daily.fields[0].value,
        "⏱️ 23:00 〜 23:10 (10分間)\n📐 最大 52.5° (南南西 (SSW) / 🏢西遮蔽注意) | 📡 137.9125 MHz"
    );
    assert_eq!(
        daily.description,
        "本日ベランダ上空を通過する予定の観測パス（全 1 件）です。\n観測地: 北緯 35.79°, 東経 139.26° | 最小仰角: 15.0° 以上"
    );
    assert_eq!(daily.footer, "Radio Astronomy • GPD Pocket3 自律地上局 (全 1 件)");
    let same = DiscordClient::build_24h_schedule_embed(
        &[pass.clone()],
        d(35.0),
        d(139.0),
        d(15.0),
        pass.aos - 3_600_000,
    );
    assert!(same.fields[0].value.starts_with("⏱️ 23:00 〜 23:10 (10分間)"));
    let other = DiscordClient::build_24h_schedule_embed(
        &[pass.clone()],
        d(35.0),
        d(139.0),
        d(15.0),
        pass.aos - 23 * 3_600_000 - 60_000,
    );
    assert!(other.fields[0].value.starts_with("⏱️ 09/05 23:00 〜 23:10"));
    let none = DiscordClient::build_24h_schedule_embed(&[], d(35.0), d(139.0), d(15.0), 0);
    assert_eq!(
        none.description,
        "今後24時間に仰角 15.0° 以上の観測対象パスはありません。\n観測地: 北緯 35.00°, 東経 139.00°"
    );
}

#[test]
fn test_build_embed_with_raw_preserved_status() {
    let telemetry = SatelliteTelemetry {
        snr_db: None,
        lines_or_packets: Some("生録音データ保存完了 (デコード未実施)".to_string()),
        housekeeping: vec![
            ("生データ".to_string(), "保全完了 (ディスク保存)".to_string()),
            ("デコード状況".to_string(), "未復調 (生IQ/音声アーカイブ)".to_string()),
        ],
        status: PassStatus::RawPreserved,
    };
    let report = PassReport {
        satellite_name: "UmKA-1".to_string(),
        signal_type_name: "CubeSat SSTV (カメラ画像)".to_string(),
        max_elevation_deg: d(73.4),
        direction: "西北西 (WNW)".to_string(),
        frequency_hz: 437_625_000,
        pass_time_str: "2026-09-06 09:37:29 〜 09:42:29".to_string(),
        telemetry: Some(telemetry),
        has_image: false,
        has_audio: true,
        next_pass_info: None,
    };
    let embed = DiscordClient::build_embed(&report, &now_text());
    assert_eq!(embed.color, 0x9B59B6);
    assert_eq!(
        embed.title,
        "🛰️ UmKA-1 [CubeSat SSTV (カメラ画像)] 受信・生データ保存完了"
    );
    assert!(embed.description.contains("生データ保存完了"));
    let val = &field(&embed, "⚡ 復調成果 & ヘルス")
        .expect("復調成果フィールドが存在すること")
        .value;
    assert!(val.contains("保全完了"));
    assert!(val.contains("未復調"));
}

#[test]
fn test_build_embed_with_audio_recorded_status() {
    let telemetry = SatelliteTelemetry {
        snr_db: None,
        lines_or_packets: Some("FM 音声復調完了 (WAV 添付)".to_string()),
        housekeeping: vec![
            ("中継方式".to_string(), "FM ボイストランスポンダー".to_string()),
            ("アクセス仕様".to_string(), "Uplink: 145.850MHz / Downlink: 436.795MHz".to_string()),
        ],
        status: PassStatus::AudioRecorded,
    };
    let report = PassReport {
        satellite_name: "SO-50".to_string(),
        signal_type_name: "FM Repeater (音声中継器)".to_string(),
        max_elevation_deg: d(70.1),
        direction: "東 (E)".to_string(),
        frequency_hz: 436_795_000,
        pass_time_str: "2026-09-06 10:00:00 〜 10:10:00".to_string(),
        telemetry: Some(telemetry),
        has_image: false,
        has_audio: true,
        next_pass_info: None,
    };
    let embed = DiscordClient::build_embed(&report, &now_text());
    assert_eq!(embed.color, 0x1ABC9C);
    assert_eq!(embed.title, "🛰️ SO-50 [FM Repeater (音声中継器)] 交信音声録音完了");
    assert!(embed.description.contains("交信音声録音完了"));
    assert!(field(&embed, "🎵 受信音声 (WAV)").is_some());
    let telemetry_field =
        field(&embed, "⚡ 復調成果 & ヘルス").expect("復調成果フィールドが存在すること");
    assert!(telemetry_field.value.contains("FM ボイストランスポンダー"));
}

#[test]
fn bands_heights_and_summaries() {
    assert_eq!(frequency_band_desc(136_999_999), "宇宙無線帯");
    assert_eq!(frequency_band_desc(137_000_000), "137MHz 気象衛星帯");
    assert_eq!(frequency_band_desc(138_500_000), "宇宙無線帯");
    assert_eq!(frequency_band_desc(145_999_999), "VHF 2m アマチュア宇宙無線帯");
    assert_eq!(frequency_band_desc(437_000_000), "UHF 70cm アマチュア宇宙無線帯");
    assert_eq!(elevation_evaluation(d(70.0)), "天頂付近・極めて良好");
    assert_eq!(elevation_evaluation(d(69.999999)), "高仰角・良好");
    assert_eq!(elevation_evaluation(d(20.0)), "中仰角");
    assert_eq!(elevation_evaluation(d(-3.0)), "低仰角 (建物遮蔽に注意)");
    assert_eq!(snr_quality(d(15.0)), "極めて明瞭");
    assert_eq!(snr_quality(d(8.0)), "良好");
    assert_eq!(snr_quality(d(7.9)), "微弱");
    assert!(satellite_summary_desc("METEOR-M").starts_with("極軌道ロシア"));
    assert!(satellite_summary_desc("XW-2A").contains("40903"));
    assert_eq!(summary_of_lower_name("?"), "軌道周回宇宙機 (Radio Astronomy 自律地上局追尾)");
    assert_eq!(format_mhz(137_912_500), "137.9125");
    assert_eq!(format_mhz(1), "0.0000");
    for k in 0..3_000u64 {
        let hz = 137_000_050 + k * 100;
        assert_eq!(format_mhz(hz), format!("{:.4}", hz as f64 / 1_000_000.0));
    }
    assert_eq!(format_mhz(u64::MAX), format!("{:.4}", u64::MAX as f64 / 1_000_000.0));
    assert_eq!(format_feet(d(3048.0)), "10000");
    assert_eq!(format_feet(d(-0.4)), "-1");
    for m in [0.1524, 5181.6, 3.048e15, 1e300, -0.0] {
        assert_eq!(format_feet(d(m)), format!("{:.0}", m / 0.3048));
    }
}

#[test]
fn report_without_telemetry_goes_by_the_image() {
    let mut report = DiscordClient::create_test_report();
    assert_eq!(report.telemetry.as_ref().unwrap().snr_db, Some(d(18.5)));
    report.telemetry = None;
    let embed = DiscordClient::build_embed(&report, "t");
    assert_eq!(embed.color, PassStatus::ImageDecoded.color_code());
    assert_eq!(
        field(&embed, "⚡ 復調成果 & ヘルス").unwrap().value,
        "```yaml\nデコード状況: 未復調 (生データ保存完了)\n```"
    );
    report.has_image = false;
    assert_eq!(DiscordClient::build_embed(&report, "t").color, 0x3498DB);
    assert_eq!(embed.timestamp.as_deref(), Some("t"));
    assert_eq!(PassStatus::WeakSignal.emoji(), "🟠");
    assert_eq!(PassStatus::DecodeError.label(), "デコード異常");
}

#[test]
fn messages_go_only_to_a_webhook() {
    let report = DiscordClient::create_test_report();
    assert!(client(false, Some("http://h")).send_pass_report(&report, None, None, "t").is_none());
    assert!(client(true, None).send_pass_report(&report, None, None, "t").is_none());
    assert!(client(true, Some(" \n")).send_text("x").is_none());
    let m = client(true, Some(" http://h \n"))
        .send_pass_report(&report, Some(10), Some(20), "t")
        .unwrap();
    assert_eq!(m.url, "http://h");
    assert_eq!(
        m.content.as_deref(),
        Some("🛰️ **NOAA 18 (テスト通知)** の画像デコードが完了したのだ！宇宙からの最新観測データをお届けするのだ！")
    );
    assert_eq!(m.attachments.len(), 2);
    assert_eq!(m.attachments[0].kind, FileKind::Image);
    assert_eq!(m.attachments[0].index, 0);
    assert_eq!(m.attachments[0].file_name, "satellite_image.png");
    assert_eq!(m.attachments[1].index, 1);
    assert_eq!(m.attachments[1].mime, "audio/wav");
    let c = client(true, Some("http://h"));
    assert!(c.send_pass_report(&report, None, None, "t").unwrap().form);
    assert!(!c.send_text("x").unwrap().form);
}

#[test]
fn audio_is_attached_up_to_the_limit() {
    let c = client(true, Some("http://h"));
    let report = DiscordClient::create_test_report();
    let at = |image, audio| c.send_pass_report(&report, image, audio, "t").unwrap().attachments;
    let a = at(Some(0), Some(MAX_DISCORD_AUDIO_BYTES));
    assert_eq!(a.len(), 1);
    assert_eq!(a[0].index, 0);
    assert_eq!(a[0].kind, FileKind::Audio);
    assert!(at(None, Some(MAX_DISCORD_AUDIO_BYTES + 1)).is_empty());
    assert!(at(None, Some(0)).is_empty());
}

#[test]
fn schedules_and_texts_as_messages() {
    let c = client(true, Some("http://h"));
    let m = c.send_daily_schedule(&[], "2026-09-05", d(35.0), d(139.0), d(15.0)).unwrap();
    assert_eq!(
        m.content.as_deref(),
        Some("🌅 おはようございますなのだ！本日の衛星受信スケジュールをお届けするのだ！（予定パス: 0件）")
    );
    assert!(m.embed.unwrap().description.starts_with("本日は仰角 15.0°"));
    let m = c.send_24h_schedule(&[], d(35.0), d(139.0), d(15.0), 0).unwrap();
    assert_eq!(
        m.content.as_deref(),
        Some("📡 今後24時間の衛星通過予定をお届けするのだ！（予定パス: 0件）")
    );
    let m = c.send_text("x").unwrap();
    assert_eq!(m.content.as_deref(), Some("x"));
    assert!(m.embed.is_none());
    assert_eq!(schedule_send_result(&SendOutcome::Delivered), Ok(()));
    assert_eq!(
        schedule_send_result(&SendOutcome::Refused {
            status: "404 Not Found".to_string(),
            body: "b".to_string()
        }),
        Err("Discord 送信失敗 (HTTP 404 Not Found): b".to_string())
    );
    assert_eq!(
        schedule_send_result(&SendOutcome::Failed("e".to_string())),
        Err("Discord 送信エラー: e".to_string())
    );
    assert!(aircraft_send_result(&SendOutcome::Failed("e".to_string())).is_err());
    assert!(aircraft_send_result(&SendOutcome::Refused {
        status: "500".to_string(),
        body: String::new()
    })
    .is_ok());
}

#[test]
fn aircraft_embed_shows_what_is_known() {
    let mut alert = sample_alert("http://radar//");
    let e = DiscordClient::build_aircraft_embed(&alert, "t");
    assert_eq!(e.title, "✈️ 全日本空輸 ANA247便 が頭上を通過中！");
    assert_eq!(e.url.as_deref(), Some("http://radar/?icao=86786c"));
    assert_eq!(e.description, "🛫 羽田 (HND) ➜ 🛬 福岡 (FUK)");
    assert_eq!(e.fields[0].value, "Boeing 787-8 Dreamliner (`86786c`)");
    assert_eq!(e.fields[1].value, "3.4 km");
    assert_eq!(e.fields[2].value, "780 km/h");
    assert_eq!(e.fields[3].value, "5200 m (17060 ft)");
    assert_eq!(e.footer, "Photo by John Doe (Planespotters.net) • tar1090 Radar");
    assert!(e.image_url.is_some());
    alert.destination = None;
    assert_eq!(DiscordClient::build_aircraft_embed(&alert, "t").description, "🛫 羽田 (HND) 発");
    alert.origin = None;
    assert_eq!(DiscordClient::build_aircraft_embed(&alert, "t").description, "航空会社: 全日本空輸");
    alert.destination = Some("福岡".to_string());
    assert_eq!(DiscordClient::build_aircraft_embed(&alert, "t").description, "🛬 福岡 行き");
    alert.destination = None;
    alert.airline = None;
    alert.aircraft_type = None;
    alert.photographer = None;
    alert.photo_url = Some(" ".to_string());
    let e = DiscordClient::build_aircraft_embed(&alert, "t");
    assert_eq!(e.title, "✈️ 航空機 ANA247便 が頭上を通過中！");
    assert_eq!(e.description, "コールサイン: ANA247");
    assert_eq!(e.fields[0].value, "機種不明 (`86786c`)");
    assert_eq!(e.footer, "tar1090 Radar");
    assert!(e.image_url.is_none());
    let m = client(true, Some("http://h")).send_aircraft_alert(&alert, "t").unwrap();
    assert_eq!(m.username.as_deref(), Some("NOAA Ground Station"));
    assert!(m.content.is_none());
}

#[test]
fn weather_image_report() {
    let r = DiscordClient::send_satellite_pass_report(
        "NOAA 19",
        d(40.0),
        "東 (E)",
        137_100_000,
        "now",
        false,
        None,
    );
    let t = r.telemetry.unwrap();
    assert_eq!(t.status, PassStatus::WeakSignal);
    assert_eq!(t.snr_db, Some(d(15.0)));
    assert!(t.lines_or_packets.is_none());
    assert_eq!(r.signal_type_name, "APT / 衛星画像");
}
