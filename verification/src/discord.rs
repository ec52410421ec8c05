//! Reports to a Discord channel: what a message says and shows.

use crate::binary64::{
    fixed_text, law_small_integers_are_in_order, law_small_quotients_are_exact,
    law_whole_numbers_are_written, of_integer, of_ratio, quotient, Binary64,
};
use crate::clock::{day_of, has_date, hm_text, jst_day, jst_of, jst_time, md_hm_text};
use crate::config::DiscordConfig;
use crate::orbit::{azimuth_to_direction, compass_name, compass_point, SatellitePass};
use crate::text::{
    contains, decimal, digits, has_text, join, joined, lemma_ends_with, lemma_front_has,
    lemma_has_across, lemma_has_behind, lemma_has_part, lemma_in_front, lemma_whole, lowercase,
    occurs_at, opt_text, pairs, push_text, signed_decimal, signed_digits, texts, three_pairs, trim,
    trim_end_matches, trimmed, unicode_lower, without_trailing,
};
use vstd::prelude::*;

verus! {

/// How the reception of a pass went.
#[derive(Clone, Copy, Debug, PartialEq, Eq, Structural)]
pub enum PassStatus {
    /// An image was decoded.
    ImageDecoded,
    /// Telemetry or packets were decoded.
    TelemetryDecoded,
    /// Voice was recorded.
    AudioRecorded,
    /// The recording is kept, not decoded.
    RawPreserved,
    /// The signal was weak; the recording is kept.
    WeakSignal,
    /// Decoding failed.
    DecodeError,
}

impl PassStatus {
    /// The colour of the message.
    pub open spec fn color(self) -> u32 {
        match self {
            PassStatus::ImageDecoded => 0x2ECC71,
            PassStatus::TelemetryDecoded => 0x3498DB,
            PassStatus::AudioRecorded => 0x1ABC9C,
            PassStatus::RawPreserved => 0x9B59B6,
            PassStatus::WeakSignal => 0xF39C12,
            PassStatus::DecodeError => 0xE74C3C,
        }
    }

    /// The status in words.
    pub open spec fn words(self) -> Seq<char> {
        match self {
            PassStatus::ImageDecoded => "画像デコード成功"@,
            PassStatus::TelemetryDecoded => "テレメトリ取得完了"@,
            PassStatus::AudioRecorded => "交信音声録音完了"@,
            PassStatus::RawPreserved => "生データ保存完了 (未復調)"@,
            PassStatus::WeakSignal => "電波微弱 (生データ保存)"@,
            PassStatus::DecodeError => "デコード異常"@,
        }
    }

    /// The status as a coloured sign.
    pub open spec fn sign(self) -> Seq<char> {
        match self {
            PassStatus::ImageDecoded => "🟢"@,
            PassStatus::TelemetryDecoded => "🔵"@,
            PassStatus::AudioRecorded => "🟢"@,
            PassStatus::RawPreserved => "🟣"@,
            PassStatus::WeakSignal => "🟠"@,
            PassStatus::DecodeError => "🔴"@,
        }
    }

    /// How the title of the message ends.
    pub open spec fn headline(self) -> Seq<char> {
        match self {
            PassStatus::ImageDecoded => "] 受信・デコード完了"@,
            PassStatus::TelemetryDecoded => "] テレメトリ復調完了"@,
            PassStatus::AudioRecorded => "] 交信音声録音完了"@,
            PassStatus::RawPreserved => "] 受信・生データ保存完了"@,
            PassStatus::WeakSignal => "] 電波微弱 (生データ保存)"@,
            PassStatus::DecodeError => "] デコード異常"@,
        }
    }

    /// What the message says of the satellite.
    pub open spec fn announcement(self) -> Seq<char> {
        match self {
            PassStatus::ImageDecoded =>
                "** の画像デコードが完了したのだ！宇宙からの最新観測データをお届けするのだ！"@,
            PassStatus::TelemetryDecoded =>
                "** のテレメトリ復調が完了したのだ！宇宙からの最新観測データをお届けするのだ！"@,
            PassStatus::AudioRecorded =>
                "** の交信音声の録音・復調が完了したのだ！音声を確認するのだ！"@,
            PassStatus::RawPreserved => "** の通過録音が完了したのだ！生データを保存したのだ！"@,
            PassStatus::WeakSignal =>
                "** の信号を受信したが微弱だったのだ。生データを保存したのだ！"@,
            PassStatus::DecodeError =>
                "** のデコード中に異常が発生したのだ。ログを確認してほしいのだ！"@,
        }
    }

    /// The colour of the message.
    pub fn color_code(&self) -> (r: u32)
        ensures
            r == self.color(),
    {
        match self {
            PassStatus::ImageDecoded => 0x2ECC71,
            PassStatus::TelemetryDecoded => 0x3498DB,
            PassStatus::AudioRecorded => 0x1ABC9C,
            PassStatus::RawPreserved => 0x9B59B6,
            PassStatus::WeakSignal => 0xF39C12,
            PassStatus::DecodeError => 0xE74C3C,
        }
    }

    /// The status in words.
    pub fn label(&self) -> (r: &'static str)
        ensures
            r@ == self.words(),
    {
        match self {
            PassStatus::ImageDecoded => "画像デコード成功",
            PassStatus::TelemetryDecoded => "テレメトリ取得完了",
            PassStatus::AudioRecorded => "交信音声録音完了",
            PassStatus::RawPreserved => "生データ保存完了 (未復調)",
            PassStatus::WeakSignal => "電波微弱 (生データ保存)",
            PassStatus::DecodeError => "デコード異常",
        }
    }

    /// The status as a coloured sign.
    pub fn emoji(&self) -> (r: &'static str)
        ensures
            r@ == self.sign(),
    {
        match self {
            PassStatus::ImageDecoded => "🟢",
            PassStatus::TelemetryDecoded => "🔵",
            PassStatus::AudioRecorded => "🟢",
            PassStatus::RawPreserved => "🟣",
            PassStatus::WeakSignal => "🟠",
            PassStatus::DecodeError => "🔴",
        }
    }

    /// How the title of the message ends.
    fn title_end(&self) -> (r: &'static str)
        ensures
            r@ == self.headline(),
    {
        match self {
            PassStatus::ImageDecoded => "] 受信・デコード完了",
            PassStatus::TelemetryDecoded => "] テレメトリ復調完了",
            PassStatus::AudioRecorded => "] 交信音声録音完了",
            PassStatus::RawPreserved => "] 受信・生データ保存完了",
            PassStatus::WeakSignal => "] 電波微弱 (生データ保存)",
            PassStatus::DecodeError => "] デコード異常",
        }
    }

    /// What the message says of the satellite.
    fn content_end(&self) -> (r: &'static str)
        ensures
            r@ == self.announcement(),
    {
        match self {
            PassStatus::ImageDecoded =>
                "** の画像デコードが完了したのだ！宇宙からの最新観測データをお届けするのだ！",
            PassStatus::TelemetryDecoded =>
                "** のテレメトリ復調が完了したのだ！宇宙からの最新観測データをお届けするのだ！",
            PassStatus::AudioRecorded =>
                "** の交信音声の録音・復調が完了したのだ！音声を確認するのだ！",
            PassStatus::RawPreserved => "** の通過録音が完了したのだ！生データを保存したのだ！",
            PassStatus::WeakSignal =>
                "** の信号を受信したが微弱だったのだ。生データを保存したのだ！",
            PassStatus::DecodeError =>
                "** のデコード中に異常が発生したのだ。ログを確認してほしいのだ！",
        }
    }
}

/// What an elevation in degrees means for reception.
pub open spec fn elevation_words(el: Binary64) -> Seq<char> {
    if el.order() >= of_integer(70).order() {
        "天頂付近・極めて良好"@
    } else if el.order() >= of_integer(45).order() {
        "高仰角・良好"@
    } else if el.order() >= of_integer(20).order() {
        "中仰角"@
    } else {
        "低仰角 (建物遮蔽に注意)"@
    }
}

/// What an elevation in degrees means for reception.
pub fn elevation_evaluation(el_deg: Binary64) -> (r: &'static str)
    ensures
        r@ == elevation_words(el_deg),
{
    if el_deg.order() >= Binary64::integer(70).order() {
        "天頂付近・極めて良好"
    } else if el_deg.order() >= Binary64::integer(45).order() {
        "高仰角・良好"
    } else if el_deg.order() >= Binary64::integer(20).order() {
        "中仰角"
    } else {
        "低仰角 (建物遮蔽に注意)"
    }
}

/// The radio band that a frequency lies in.
pub open spec fn band_words(freq_hz: int) -> Seq<char> {
    if 137_000_000 <= freq_hz < 138_500_000 {
        "137MHz 気象衛星帯"@
    } else if 144_000_000 <= freq_hz < 146_000_000 {
        "VHF 2m アマチュア宇宙無線帯"@
    } else if 435_000_000 <= freq_hz < 438_000_000 {
        "UHF 70cm アマチュア宇宙無線帯"@
    } else {
        "宇宙無線帯"@
    }
}

/// The radio band that a frequency lies in.
pub fn frequency_band_desc(freq_hz: u64) -> (r: &'static str)
    ensures
        r@ == band_words(freq_hz as int),
{
    if 137_000_000 <= freq_hz && freq_hz < 138_500_000 {
        "137MHz 気象衛星帯"
    } else if 144_000_000 <= freq_hz && freq_hz < 146_000_000 {
        "VHF 2m アマチュア宇宙無線帯"
    } else if 435_000_000 <= freq_hz && freq_hz < 438_000_000 {
        "UHF 70cm アマチュア宇宙無線帯"
    } else {
        "宇宙無線帯"
    }
}

/// What a satellite is, by its name in lower case.
pub open spec fn summary_words(lower: Seq<char>) -> Seq<char> {
    if has_text(lower, "meteor"@) {
        "極軌道ロシア気象衛星 (MSU-MR デジタル地球観測)"@
    } else if has_text(lower, "noaa"@) {
        "極軌道米国気象衛星 (AVHRR アナログ雲画像)"@
    } else if has_text(lower, "umka"@) {
        "超小型反射望遠鏡搭載 3U CubeSat (RS40S / NORAD 57172)"@
    } else if has_text(lower, "funcube"@) {
        "高感度VHFビーコン・宇宙環境WODテレメトリ CubeSat (AO-73 / NORAD 39444)"@
    } else if has_text(lower, "sonate"@) {
        "AI画像認識実証 6U CubeSat (NORAD 59112)"@
    } else if has_text(lower, "so-50"@) {
        "FMボイストランスポンダー中継器 (SaudiSat 1C / NORAD 27607)"@
    } else if has_text(lower, "cas-4"@) {
        "高利得CWモールステレメトリビーコン CubeSat (NORAD 42761)"@
    } else if has_text(lower, "iss"@) || has_text(lower, "zarya"@) {
        "国際宇宙ステーション (ARISS アマチュア無線局 / NORAD 25544)"@
    } else if has_text(lower, "xw-2"@) || has_text(lower, "cas-3"@) {
        "超高SNR常時CWビーコン微小衛星 (XW-2A / NORAD 40903)"@
    } else {
        "軌道周回宇宙機 (Radio Astronomy 自律地上局追尾)"@
    }
}

/// What a satellite is, by its name in lower case.
pub fn summary_of_lower_name(lower: &str) -> (r: &'static str)
    ensures
        r@ == summary_words(lower@),
{
    if contains(lower, "meteor") {
        "極軌道ロシア気象衛星 (MSU-MR デジタル地球観測)"
    } else if contains(lower, "noaa") {
        "極軌道米国気象衛星 (AVHRR アナログ雲画像)"
    } else if contains(lower, "umka") {
        "超小型反射望遠鏡搭載 3U CubeSat (RS40S / NORAD 57172)"
    } else if contains(lower, "funcube") {
        "高感度VHFビーコン・宇宙環境WODテレメトリ CubeSat (AO-73 / NORAD 39444)"
    } else if contains(lower, "sonate") {
        "AI画像認識実証 6U CubeSat (NORAD 59112)"
    } else if contains(lower, "so-50") {
        "FMボイストランスポンダー中継器 (SaudiSat 1C / NORAD 27607)"
    } else if contains(lower, "cas-4") {
        "高利得CWモールステレメトリビーコン CubeSat (NORAD 42761)"
    } else if contains(lower, "iss") || contains(lower, "zarya") {
        "国際宇宙ステーション (ARISS アマチュア無線局 / NORAD 25544)"
    } else if contains(lower, "xw-2") || contains(lower, "cas-3") {
        "超高SNR常時CWビーコン微小衛星 (XW-2A / NORAD 40903)"
    } else {
        "軌道周回宇宙機 (Radio Astronomy 自律地上局追尾)"
    }
}

/// What a satellite is, by its name.
pub fn satellite_summary_desc(sat_name: &str) -> (r: &'static str)
    ensures
        r@ == summary_words(unicode_lower(sat_name@)),
{
    let lower: String = lowercase(sat_name);
    summary_of_lower_name(lower.as_str())
}

/// What was received of a satellite, and how well.
#[derive(Clone, Debug)]
pub struct SatelliteTelemetry {
    /// Signal-to-noise ratio in dB.
    pub snr_db: Option<Binary64>,
    pub lines_or_packets: Option<String>,
    /// Labelled values.
    pub housekeeping: Vec<(String, String)>,
    pub status: PassStatus,
}

/// What was received of a satellite, as plain values.
pub struct TelemetryText {
    pub snr_db: Option<Binary64>,
    pub lines_or_packets: Option<Seq<char>>,
    pub housekeeping: Seq<(Seq<char>, Seq<char>)>,
    pub status: PassStatus,
}

impl View for SatelliteTelemetry {
    type V = TelemetryText;

    open spec fn view(&self) -> TelemetryText {
        TelemetryText {
            snr_db: self.snr_db,
            lines_or_packets: opt_text(self.lines_or_packets),
            housekeeping: pairs(self.housekeeping@),
            status: self.status,
        }
    }
}

/// The most bytes of audio that a message carries.
pub const MAX_DISCORD_AUDIO_BYTES: usize = 8_388_608;

/// The report on a pass.
#[derive(Clone, Debug)]
pub struct PassReport {
    pub satellite_name: String,
    pub signal_type_name: String,
    pub max_elevation_deg: Binary64,
    pub direction: String,
    pub frequency_hz: u64,
    pub pass_time_str: String,
    pub telemetry: Option<SatelliteTelemetry>,
    pub has_image: bool,
    pub has_audio: bool,
    pub next_pass_info: Option<String>,
}

/// A field of a message.
#[derive(Clone, Debug)]
pub struct EmbedField {
    pub name: String,
    pub value: String,
    pub inline: bool,
}

/// The card that a message shows.
#[derive(Clone, Debug)]
pub struct Embed {
    pub title: String,
    pub description: String,
    pub color: u32,
    pub url: Option<String>,
    pub timestamp: Option<String>,
    pub fields: Vec<EmbedField>,
    pub image_url: Option<String>,
    pub footer: String,
}

/// A field, as plain values.
pub struct FieldText {
    pub name: Seq<char>,
    pub value: Seq<char>,
    pub inline: bool,
}

/// A card, as plain values.
pub struct EmbedText {
    pub title: Seq<char>,
    pub description: Seq<char>,
    pub color: u32,
    pub url: Option<Seq<char>>,
    pub timestamp: Option<Seq<char>>,
    pub fields: Seq<FieldText>,
    pub image_url: Option<Seq<char>>,
    pub footer: Seq<char>,
}

/// What a list of fields holds.
pub open spec fn field_texts(v: Seq<EmbedField>) -> Seq<FieldText> {
    Seq::new(
        v.len(),
        |i: int| FieldText { name: v[i].name@, value: v[i].value@, inline: v[i].inline },
    )
}

impl View for Embed {
    type V = EmbedText;

    open spec fn view(&self) -> EmbedText {
        EmbedText {
            title: self.title@,
            description: self.description@,
            color: self.color,
            url: opt_text(self.url),
            timestamp: opt_text(self.timestamp),
            fields: field_texts(self.fields@),
            image_url: opt_text(self.image_url),
            footer: self.footer@,
        }
    }
}

/// Adds a field at the end.
fn push_field(v: &mut Vec<EmbedField>, name: &str, value: &str, inline: bool)
    ensures
        field_texts(final(v)@) == field_texts(old(v)@).push(
            FieldText { name: name@, value: value@, inline },
        ),
{
    v.push(EmbedField { name: name.to_owned(), value: value.to_owned(), inline });
    assert(field_texts(v@) =~= field_texts(old(v)@).push(
        FieldText { name: name@, value: value@, inline },
    ));
}

/// A frequency in MHz with four places behind the point.
pub open spec fn mhz_text(freq_hz: nat) -> Seq<char> {
    fixed_text(quotient(of_integer(freq_hz), of_integer(1_000_000)), 4)
}

/// A frequency in MHz with four places behind the point.
pub fn format_mhz(freq_hz: u64) -> (r: String)
    ensures
        r@ == mhz_text(freq_hz as nat),
{
    Binary64::integer(freq_hz as u128).over(Binary64::integer(1_000_000)).fixed(4)
}

/// The status that a report shows. A report without telemetry goes by whether there is an image.
pub open spec fn report_status(report: PassReport) -> PassStatus {
    match report.telemetry {
        Some(t) => t.status,
        None => if report.has_image {
            PassStatus::ImageDecoded
        } else {
            PassStatus::TelemetryDecoded
        },
    }
}

/// How good a signal-to-noise ratio is.
pub open spec fn snr_words(snr: Binary64) -> Seq<char> {
    if snr.order() >= of_integer(15).order() {
        "極めて明瞭"@
    } else if snr.order() >= of_integer(8).order() {
        "良好"@
    } else {
        "微弱"@
    }
}

/// The lines on what was received: the yield, the signal quality, and the labelled values.
pub open spec fn health_lines(t: SatelliteTelemetry) -> Seq<Seq<char>> {
    (match t.lines_or_packets {
        Some(s) => seq!["復調実績: "@ + s@],
        None => Seq::empty(),
    }) + (match t.snr_db {
        Some(snr) => seq![
            "信号品質 (SNR): "@ + fixed_text(snr, 1) + " dB ("@ + snr_words(snr)
                + ")"@,
        ],
        None => Seq::empty(),
    }) + Seq::new(
        t.housekeeping@.len(),
        |i: int| t.housekeeping@[i].0@ + ": "@ + t.housekeeping@[i].1@,
    )
}

/// The lines of a report on what was received.
pub open spec fn report_lines(report: PassReport) -> Seq<Seq<char>> {
    match report.telemetry {
        Some(t) => health_lines(t),
        None => Seq::empty(),
    }
}

/// The block on what was received.
pub open spec fn health_block(report: PassReport) -> Seq<char> {
    let lines = report_lines(report);
    if lines.len() == 0 {
        "```yaml\nデコード状況: 未復調 (生データ保存完了)\n```"@
    } else {
        "```yaml\n"@ + joined(lines, "\n"@) + "\n```"@
    }
}

/// The fields of a report: geometry, radio, yield, audio where there is some, and the next pass
/// where it is known.
pub open spec fn report_fields(report: PassReport) -> Seq<FieldText> {
    seq![
        FieldText {
            name: "📐 軌道ジオメトリ"@,
            value: "• **最大仰角**: "@ + fixed_text(report.max_elevation_deg, 1)
                + "° ("@ + elevation_words(report.max_elevation_deg) + ")\n• **ピーク方位**: "@
                + report.direction@ + "\n• **通過時間**: "@ + report.pass_time_str@,
            inline: true,
        },
        FieldText {
            name: "📡 無線・SDR諸元"@,
            value: "• **受信周波数**: `"@ + mhz_text(report.frequency_hz as nat)
                + " MHz`\n• **周波数帯**: "@ + band_words(report.frequency_hz as int)
                + "\n• **信号方式**: "@ + report.signal_type_name@,
            inline: true,
        },
        FieldText {
            name: "⚡ 復調成果 & ヘルス"@,
            value: health_block(report),
            inline: false,
        },
    ] + (if report.has_audio {
        seq![
            FieldText {
                name: "🎵 受信音声 (WAV)"@,
                value: "添付プレーヤーでインライン再生可能"@,
                inline: true,
            },
        ]
    } else {
        Seq::empty()
    }) + (match report.next_pass_info {
        Some(info) => seq![
            FieldText { name: "⏰ 次の通過予定"@, value: info@, inline: false },
        ],
        None => Seq::empty(),
    })
}

/// The card of a report.
pub open spec fn report_embed(report: PassReport, timestamp: Seq<char>) -> EmbedText {
    let status = report_status(report);
    EmbedText {
        title: "🛰️ "@ + report.satellite_name@ + " ["@ + report.signal_type_name@
            + status.headline(),
        description: "> "@ + status.sign() + " **ステータス**: "@ + status.words() + "\n> **"@
            + report.satellite_name@ + "**: "@ + summary_words(
            unicode_lower(report.satellite_name@),
        ),
        color: status.color(),
        url: None,
        timestamp: Some(timestamp),
        fields: report_fields(report),
        image_url: if report.has_image {
            Some("attachment://satellite_image.png"@)
        } else {
            None
        },
        footer: "Radio Astronomy • GPD Pocket3 自律地上局"@,
    }
}

/// The status that a report shows.
pub fn status_of_report(report: &PassReport) -> (r: PassStatus)
    ensures
        r == report_status(*report),
{
    match &report.telemetry {
        Some(t) => t.status,
        None => if report.has_image {
            PassStatus::ImageDecoded
        } else {
            PassStatus::TelemetryDecoded
        },
    }
}

/// How good a signal-to-noise ratio is.
pub fn snr_quality(snr: Binary64) -> (r: &'static str)
    ensures
        r@ == snr_words(snr),
{
    if snr.order() >= Binary64::integer(15).order() {
        "極めて明瞭"
    } else if snr.order() >= Binary64::integer(8).order() {
        "良好"
    } else {
        "微弱"
    }
}

/// The lines on what was received.
fn telemetry_lines(t: &SatelliteTelemetry) -> (r: Vec<String>)
    ensures
        texts(r@) == health_lines(*t),
{
    let mut r: Vec<String> = Vec::new();
    assert(texts(r@) =~= Seq::empty());
    if let Some(s) = &t.lines_or_packets {
        let mut line: String = "復調実績: ".to_owned();
        line.append(s.as_str());
        push_text(&mut r, line.as_str());
    }
    if let Some(snr) = t.snr_db {
        let mut line: String = "信号品質 (SNR): ".to_owned();
        line.append(snr.fixed(1).as_str());
        line.append(" dB (");
        line.append(snr_quality(snr));
        line.append(")");
        push_text(&mut r, line.as_str());
    }
    let ghost head = texts(r@);
    let mut i: usize = 0;
    assert(head =~= head + Seq::<Seq<char>>::empty());
    while i < t.housekeeping.len()
        invariant
            i <= t.housekeeping@.len(),
            texts(r@) == head + Seq::new(
                i as nat,
                |k: int| t.housekeeping@[k].0@ + ": "@ + t.housekeeping@[k].1@,
            ),
        decreases t.housekeeping@.len() - i,
    {
        let mut line: String = t.housekeeping[i].0.as_str().to_owned();
        line.append(": ");
        line.append(t.housekeeping[i].1.as_str());
        push_text(&mut r, line.as_str());
        i = i + 1;
        assert(texts(r@) =~= head + Seq::new(
            i as nat,
            |k: int| t.housekeeping@[k].0@ + ": "@ + t.housekeeping@[k].1@,
        ));
    }
    assert(texts(r@) =~= health_lines(*t));
    r
}

/// The block on what was received.
fn yield_block(report: &PassReport) -> (r: String)
    ensures
        r@ == health_block(*report),
{
    let lines: Vec<String> = match &report.telemetry {
        Some(t) => telemetry_lines(t),
        None => Vec::new(),
    };
    assert(texts(lines@) =~= report_lines(*report));
    assert(texts(lines@).len() == lines@.len());
    if lines.is_empty() {
        "```yaml\nデコード状況: 未復調 (生データ保存完了)\n```".to_owned()
    } else {
        let mut r: String = "```yaml\n".to_owned();
        r.append(join(&lines, "\n").as_str());
        r.append("\n```");
        r
    }
}

/// The fields of a report.
fn fields_of_report(report: &PassReport) -> (r: Vec<EmbedField>)
    ensures
        field_texts(r@) == report_fields(*report),
{
    let mut fields: Vec<EmbedField> = Vec::new();
    assert(field_texts(fields@) =~= Seq::empty());
    let mut geometry: String = "• **最大仰角**: ".to_owned();
    geometry.append(report.max_elevation_deg.fixed(1).as_str());
    geometry.append("° (");
    geometry.append(elevation_evaluation(report.max_elevation_deg));
    geometry.append(")\n• **ピーク方位**: ");
    geometry.append(report.direction.as_str());
    geometry.append("\n• **通過時間**: ");
    geometry.append(report.pass_time_str.as_str());
    push_field(&mut fields, "📐 軌道ジオメトリ", geometry.as_str(), true);
    let mut radio: String = "• **受信周波数**: `".to_owned();
    radio.append(format_mhz(report.frequency_hz).as_str());
    radio.append(" MHz`\n• **周波数帯**: ");
    radio.append(frequency_band_desc(report.frequency_hz));
    radio.append("\n• **信号方式**: ");
    radio.append(report.signal_type_name.as_str());
    push_field(&mut fields, "📡 無線・SDR諸元", radio.as_str(), true);
    push_field(&mut fields, "⚡ 復調成果 & ヘルス", yield_block(report).as_str(), false);
    if report.has_audio {
        push_field(
            &mut fields,
            "🎵 受信音声 (WAV)",
            "添付プレーヤーでインライン再生可能",
            true,
        );
    }
    if let Some(info) = &report.next_pass_info {
        push_field(&mut fields, "⏰ 次の通過予定", info.as_str(), false);
    }
    assert(field_texts(fields@) =~= report_fields(*report));
    fields
}

/// What the station tells a Discord channel.
#[derive(Clone, Debug)]
pub struct DiscordClient {
    pub config: DiscordConfig,
}

impl DiscordClient {
    /// A client for the webhook in the settings.
    pub fn new(config: DiscordConfig) -> (r: Self)
        ensures
            r.config == config,
    {
        DiscordClient { config }
    }

    /// The card of a report.
    pub fn build_embed(report: &PassReport, timestamp: &str) -> (r: Embed)
        ensures
            r@ == report_embed(*report, timestamp@),
    {
        let status: PassStatus = status_of_report(report);
        let mut title: String = "🛰️ ".to_owned();
        title.append(report.satellite_name.as_str());
        title.append(" [");
        title.append(report.signal_type_name.as_str());
        title.append(status.title_end());
        let mut description: String = "> ".to_owned();
        description.append(status.emoji());
        description.append(" **ステータス**: ");
        description.append(status.label());
        description.append("\n> **");
        description.append(report.satellite_name.as_str());
        description.append("**: ");
        description.append(satellite_summary_desc(report.satellite_name.as_str()));
        Embed {
            title,
            description,
            color: status.color_code(),
            url: None,
            timestamp: Some(timestamp.to_owned()),
            fields: fields_of_report(report),
            image_url: if report.has_image {
                Some("attachment://satellite_image.png".to_owned())
            } else {
                None
            },
            footer: "Radio Astronomy • GPD Pocket3 自律地上局".to_owned(),
        }
    }
}

/// A PNG image of one pixel.
pub open spec fn sample_png() -> Seq<u8> {
    seq![
        0x89u8, 0x50u8, 0x4eu8, 0x47u8, 0x0du8, 0x0au8, 0x1au8, 0x0au8,
        0x00u8, 0x00u8, 0x00u8, 0x0du8, 0x49u8, 0x48u8, 0x44u8, 0x52u8,
        0x00u8, 0x00u8, 0x00u8, 0x01u8, 0x00u8, 0x00u8, 0x00u8, 0x01u8,
        0x08u8, 0x02u8, 0x00u8, 0x00u8, 0x00u8, 0x90u8, 0x77u8, 0x53u8,
        0xdeu8, 0x00u8, 0x00u8, 0x00u8, 0x0cu8, 0x49u8, 0x44u8, 0x41u8,
        0x54u8, 0x78u8, 0x9cu8, 0x63u8, 0xf8u8, 0xffu8, 0xffu8, 0x3fu8,
        0x00u8, 0x05u8, 0xfeu8, 0x02u8, 0xfeu8, 0xa7u8, 0x35u8, 0x81u8,
        0x84u8, 0x00u8, 0x00u8, 0x00u8, 0x00u8, 0x49u8, 0x45u8, 0x4eu8,
        0x44u8, 0xaeu8, 0x42u8, 0x60u8, 0x82u8,
    ]
}

/// The report for trying out the messages.
pub open spec fn sample_telemetry() -> TelemetryText {
    TelemetryText {
        snr_db: Some(of_ratio(37, 2)),
        lines_or_packets: Some("2,180 有効走査線 (同期率 98%)"@),
        housekeeping: seq![
            ("バッテリ"@, "8.24 V"@),
            ("太陽電池"@, "140 mA"@),
            ("センサ温度"@, "+14.2°C"@),
        ],
        status: PassStatus::ImageDecoded,
    }
}

impl DiscordClient {
    /// A PNG image of one pixel, for trying out the messages.
    pub fn create_test_sample_image() -> (r: Vec<u8>)
        ensures
            r@ == sample_png(),
    {
        let bytes: [u8; 69] = [
            0x89, 0x50, 0x4e, 0x47, 0x0d, 0x0a, 0x1a, 0x0a,
            0x00, 0x00, 0x00, 0x0d, 0x49, 0x48, 0x44, 0x52,
            0x00, 0x00, 0x00, 0x01, 0x00, 0x00, 0x00, 0x01,
            0x08, 0x02, 0x00, 0x00, 0x00, 0x90, 0x77, 0x53,
            0xde, 0x00, 0x00, 0x00, 0x0c, 0x49, 0x44, 0x41,
            0x54, 0x78, 0x9c, 0x63, 0xf8, 0xff, 0xff, 0x3f,
            0x00, 0x05, 0xfe, 0x02, 0xfe, 0xa7, 0x35, 0x81,
            0x84, 0x00, 0x00, 0x00, 0x00, 0x49, 0x45, 0x4e,
            0x44, 0xae, 0x42, 0x60, 0x82,
        ];
        let mut r: Vec<u8> = Vec::new();
        let mut i: usize = 0;
        while i < 69
            invariant
                i <= 69,
                bytes@.len() == 69,
                r@ == bytes@.take(i as int),
            decreases 69 - i,
        {
            r.push(bytes[i]);
            i = i + 1;
            assert(r@ =~= bytes@.take(i as int));
        }
        assert(r@ =~= sample_png());
        r
    }

    /// The report for trying out the messages.
    pub fn create_test_report() -> (r: PassReport)
        ensures
            r.satellite_name@ == "NOAA 18 (テスト通知)"@,
            r.signal_type_name@ == "APT (2.4kHz AM)"@,
            r.max_elevation_deg == of_ratio(105, 2),
            r.direction@ == "東南東 (ESE)"@,
            r.frequency_hz == 137_912_500,
            r.pass_time_str@ == "2026-09-05 17:15:00 〜 17:22:00 (7分00秒)"@,
            r.telemetry is Some,
            r.telemetry->0@ == sample_telemetry(),
            r.has_image,
            r.has_audio,
            opt_text(r.next_pass_info) == Some(
                "🛰️ **NOAA 19** (22:08 〜 40.7° 西南西 (WSW))"@,
            ),
    {
        PassReport {
            satellite_name: "NOAA 18 (テスト通知)".to_owned(),
            signal_type_name: "APT (2.4kHz AM)".to_owned(),
            max_elevation_deg: Binary64::ratio(105, 2),
            direction: "東南東 (ESE)".to_owned(),
            frequency_hz: 137_912_500,
            pass_time_str: "2026-09-05 17:15:00 〜 17:22:00 (7分00秒)".to_owned(),
            telemetry: Some(
                SatelliteTelemetry {
                    snr_db: Some(Binary64::ratio(37, 2)),
                    lines_or_packets: Some("2,180 有効走査線 (同期率 98%)".to_owned()),
                    housekeeping: three_pairs(
                        "バッテリ",
                        "8.24 V",
                        "太陽電池",
                        "140 mA",
                        "センサ温度",
                        "+14.2°C",
                    ),
                    status: PassStatus::ImageDecoded,
                },
            ),
            has_image: true,
            has_audio: true,
            next_pass_info: Some("🛰️ **NOAA 19** (22:08 〜 40.7° 西南西 (WSW))".to_owned()),
        }
    }
}

/// How many passes a schedule shows at most: a card has no room for more fields.
pub const MAX_SCHEDULE_FIELDS: usize = 25;

/// The whole minutes in a span of milliseconds.
pub open spec fn whole_minutes(ms: int) -> int {
    if ms >= 0 {
        ms / 60_000
    } else {
        -((-ms) / 60_000)
    }
}

/// The beginning and the end of a pass, on a day that goes without saying.
pub open spec fn span_text(pass: SatellitePass) -> Seq<char> {
    hm_text(jst_of(pass.aos as int)) + " 〜 "@ + hm_text(jst_of(pass.los as int))
}

/// The beginning and the end of a pass, with the date where it begins on another day than `now`.
pub open spec fn dated_span_text(pass: SatellitePass, now: int) -> Seq<char> {
    if day_of(pass.aos as int) == day_of(now) {
        span_text(pass)
    } else {
        md_hm_text(jst_of(pass.aos as int)) + " 〜 "@ + hm_text(jst_of(pass.los as int))
    }
}

/// The field of the pass at place `i` of a schedule.
pub open spec fn schedule_field(pass: SatellitePass, i: int, span: Seq<char>) -> FieldText {
    FieldText {
        name: digits((i + 1) as nat) + ". 🛰️ "@ + pass.satellite_name@ + " ["@
            + pass.signal_type.display() + "]"@,
        value: "⏱️ "@ + span + " ("@ + signed_digits(whole_minutes(pass.los - pass.aos))
            + "分間)\n📐 最大 "@ + fixed_text(pass.max_elevation_deg, 1) + "° ("@
            + compass_name(compass_point(pass.peak_azimuth_deg)) + " / "@ + (if pass.east_view() {
            "☀️東見通し良好"@
        } else {
            "🏢西遮蔽注意"@
        }) + ") | 📡 "@ + mhz_text(pass.frequency_hz as nat) + " MHz"@,
        inline: false,
    }
}

/// The footer of a schedule of `n` passes.
pub open spec fn schedule_footer(n: int) -> Seq<char> {
    if n > 25 {
        "Radio Astronomy • GPD Pocket3 自律地上局 (全 "@ + digits(n as nat)
            + " 件中 25 件を表示 / 他 "@ + digits((n - 25) as nat) + " 件)"@
    } else {
        "Radio Astronomy • GPD Pocket3 自律地上局 (全 "@ + digits(n as nat) + " 件)"@
    }
}

/// Every pass begins and ends at a time that has a date.
pub open spec fn dated_passes(passes: Seq<SatellitePass>) -> bool {
    forall|i: int|
        0 <= i < passes.len() ==> has_date((#[trigger] passes[i]).aos as int) && has_date(
            passes[i].los as int,
        )
}

/// How many of `n` passes a schedule shows.
pub open spec fn shown(n: nat) -> nat {
    if n > 25 {
        25
    } else {
        n
    }
}

/// The card of the schedule of a day.
pub open spec fn daily_embed(
    passes: Seq<SatellitePass>,
    date: Seq<char>,
    lat: Binary64,
    lon: Binary64,
    min_elev: Binary64,
) -> EmbedText {
    EmbedText {
        title: "📅 【本日の衛星受信スケジュール】 "@ + date + " (JST)"@,
        description: if passes.len() == 0 {
            "本日は仰角 "@ + fixed_text(min_elev, 1)
                + "° 以上の観測対象パスはありません。\n観測地: 北緯 "@ + fixed_text(
                lat,
                2,
            ) + "°, 東経 "@ + fixed_text(lon, 2) + "°"@
        } else {
            "本日ベランダ上空を通過する予定の観測パス（全 "@ + digits(passes.len())
                + " 件）です。\n観測地: 北緯 "@ + fixed_text(lat, 2) + "°, 東経 "@
                + fixed_text(lon, 2) + "° | 最小仰角: "@ + fixed_text(
                min_elev,
                1,
            ) + "° 以上"@
        },
        color: 0x3498DB,
        url: None,
        timestamp: None,
        fields: Seq::new(
            shown(passes.len()),
            |i: int| schedule_field(passes[i], i, span_text(passes[i])),
        ),
        image_url: None,
        footer: schedule_footer(passes.len() as int),
    }
}

/// The card of the schedule of the 24 hours from `now`.
pub open spec fn day_ahead_embed(
    passes: Seq<SatellitePass>,
    lat: Binary64,
    lon: Binary64,
    min_elev: Binary64,
    now: int,
) -> EmbedText {
    EmbedText {
        title: "📡 【今後24時間の衛星通過予定】 (JST)"@,
        description: if passes.len() == 0 {
            "今後24時間に仰角 "@ + fixed_text(min_elev, 1)
                + "° 以上の観測対象パスはありません。\n観測地: 北緯 "@ + fixed_text(
                lat,
                2,
            ) + "°, 東経 "@ + fixed_text(lon, 2) + "°"@
        } else {
            "現在から24時間以内に到来する予定の観測パス（全 "@ + digits(passes.len())
                + " 件）です。\n観測地: 北緯 "@ + fixed_text(lat, 2) + "°, 東経 "@
                + fixed_text(lon, 2) + "° | 最小仰角: "@ + fixed_text(
                min_elev,
                1,
            ) + "° 以上"@
        },
        color: 0x3498DB,
        url: None,
        timestamp: None,
        fields: Seq::new(
            shown(passes.len()),
            |i: int| schedule_field(passes[i], i, dated_span_text(passes[i], now)),
        ),
        image_url: None,
        footer: schedule_footer(passes.len() as int),
    }
}

/// A schedule never has more fields than a card has room for, and leaves out no pass before that.
pub proof fn law_schedules_fit(
    passes: Seq<SatellitePass>,
    date: Seq<char>,
    lat: Binary64,
    lon: Binary64,
    min_elev: Binary64,
    now: int,
)
    ensures
        daily_embed(passes, date, lat, lon, min_elev).fields.len() <= 25,
        day_ahead_embed(passes, lat, lon, min_elev, now).fields.len() <= 25,
        passes.len() <= 25 ==> daily_embed(passes, date, lat, lon, min_elev).fields.len()
            == passes.len() && day_ahead_embed(passes, lat, lon, min_elev, now).fields.len()
            == passes.len(),
        passes.len() > 25 ==> daily_embed(passes, date, lat, lon, min_elev).fields.len() == 25
            && day_ahead_embed(passes, lat, lon, min_elev, now).fields.len() == 25,
{
}

/// The whole minutes of a pass.
fn pass_minutes(pass: &SatellitePass) -> (r: String)
    ensures
        r@ == signed_digits(whole_minutes(pass.los - pass.aos)),
{
    let d: i128 = pass.los as i128 - pass.aos as i128;
    if d >= 0 {
        signed_decimal((d / 60_000) as i64)
    } else {
        signed_decimal(-(((-d) / 60_000) as i64))
    }
}

/// Adds the field of the pass at place `i` of a schedule.
fn push_schedule_field(v: &mut Vec<EmbedField>, pass: &SatellitePass, i: usize, span: &str)
    requires
        i < MAX_SCHEDULE_FIELDS,
    ensures
        field_texts(final(v)@) == field_texts(old(v)@).push(
            schedule_field(*pass, i as int, span@),
        ),
{
    let mut name: String = decimal(i as u64 + 1);
    name.append(". 🛰️ ");
    name.append(pass.satellite_name.as_str());
    name.append(" [");
    name.append(pass.signal_type.name());
    name.append("]");
    let mut value: String = "⏱️ ".to_owned();
    value.append(span);
    value.append(" (");
    value.append(pass_minutes(pass).as_str());
    value.append("分間)\n📐 最大 ");
    value.append(pass.max_elevation_deg.fixed(1).as_str());
    value.append("° (");
    value.append(azimuth_to_direction(pass.peak_azimuth_deg));
    value.append(" / ");
    value.append(
        if pass.is_east_view_favorable() {
            "☀️東見通し良好"
        } else {
            "🏢西遮蔽注意"
        },
    );
    value.append(") | 📡 ");
    value.append(format_mhz(pass.frequency_hz).as_str());
    value.append(" MHz");
    push_field(v, name.as_str(), value.as_str(), false);
}

/// The footer of a schedule of `n` passes.
fn footer_of_schedule(n: usize) -> (r: String)
    ensures
        r@ == schedule_footer(n as int),
{
    let mut r: String = "Radio Astronomy • GPD Pocket3 自律地上局 (全 ".to_owned();
    r.append(decimal(n as u64).as_str());
    if n > MAX_SCHEDULE_FIELDS {
        r.append(" 件中 25 件を表示 / 他 ");
        r.append(decimal((n - MAX_SCHEDULE_FIELDS) as u64).as_str());
        r.append(" 件)");
    } else {
        r.append(" 件)");
    }
    r
}

/// How many of `n` passes a schedule shows.
fn shown_count(n: usize) -> (r: usize)
    ensures
        r == shown(n as nat),
        r <= n,
        r <= MAX_SCHEDULE_FIELDS,
{
    if n > MAX_SCHEDULE_FIELDS {
        MAX_SCHEDULE_FIELDS
    } else {
        n
    }
}

/// The beginning and the end of a pass.
pub fn pass_span(pass: &SatellitePass) -> (r: String)
    requires
        has_date(pass.aos as int),
        has_date(pass.los as int),
    ensures
        r@ == span_text(*pass),
{
    let mut r: String = jst_time(pass.aos).format_hm();
    r.append(" 〜 ");
    r.append(jst_time(pass.los).format_hm().as_str());
    r
}

/// The place and the least elevation, as the description of a schedule gives them.
fn append_place(text: &mut String, lat: Binary64, lon: Binary64)
    ensures
        final(text)@ == old(text)@ + fixed_text(lat, 2) + "°, 東経 "@ + fixed_text(
            lon,
            2,
        ),
{
    text.append(lat.fixed(2).as_str());
    text.append("°, 東経 ");
    text.append(lon.fixed(2).as_str());
}

impl DiscordClient {
    /// The card of the schedule of a day.
    pub fn build_daily_schedule_embed(
        passes: &[SatellitePass],
        date_str: &str,
        observer_lat: Binary64,
        observer_lon: Binary64,
        min_elev: Binary64,
    ) -> (r: Embed)
        requires
            dated_passes(passes@),
        ensures
            r@ == daily_embed(passes@, date_str@, observer_lat, observer_lon, min_elev),
    {
        let n: usize = passes.len();
        let mut title: String = "📅 【本日の衛星受信スケジュール】 ".to_owned();
        title.append(date_str);
        title.append(" (JST)");
        let description: String = if n == 0 {
            let mut d: String = "本日は仰角 ".to_owned();
            d.append(min_elev.fixed(1).as_str());
            d.append("° 以上の観測対象パスはありません。\n観測地: 北緯 ");
            append_place(&mut d, observer_lat, observer_lon);
            d.append("°");
            d
        } else {
            let mut d: String =
                "本日ベランダ上空を通過する予定の観測パス（全 ".to_owned();
            d.append(decimal(n as u64).as_str());
            d.append(" 件）です。\n観測地: 北緯 ");
            append_place(&mut d, observer_lat, observer_lon);
            d.append("° | 最小仰角: ");
            d.append(min_elev.fixed(1).as_str());
            d.append("° 以上");
            d
        };
        let mut fields: Vec<EmbedField> = Vec::new();
        let count: usize = shown_count(n);
        let mut i: usize = 0;
        assert(field_texts(fields@) =~= Seq::empty());
        while i < count
            invariant
                dated_passes(passes@),
                count <= passes@.len(),
                count <= MAX_SCHEDULE_FIELDS,
                i <= count,
                field_texts(fields@) == Seq::new(
                    i as nat,
                    |k: int| schedule_field(passes@[k], k, span_text(passes@[k])),
                ),
            decreases count - i,
        {
            push_schedule_field(&mut fields, &passes[i], i, pass_span(&passes[i]).as_str());
            i = i + 1;
            assert(field_texts(fields@) =~= Seq::new(
                i as nat,
                |k: int| schedule_field(passes@[k], k, span_text(passes@[k])),
            ));
        }
        Embed {
            title,
            description,
            color: 0x3498DB,
            url: None,
            timestamp: None,
            fields,
            image_url: None,
            footer: footer_of_schedule(n),
        }
    }

    /// The card of the schedule of the 24 hours from `now`.
    pub fn build_24h_schedule_embed(
        passes: &[SatellitePass],
        observer_lat: Binary64,
        observer_lon: Binary64,
        min_elev: Binary64,
        now: i64,
    ) -> (r: Embed)
        requires
            dated_passes(passes@),
        ensures
            r@ == day_ahead_embed(passes@, observer_lat, observer_lon, min_elev, now as int),
    {
        let n: usize = passes.len();
        let description: String = if n == 0 {
            let mut d: String = "今後24時間に仰角 ".to_owned();
            d.append(min_elev.fixed(1).as_str());
            d.append("° 以上の観測対象パスはありません。\n観測地: 北緯 ");
            append_place(&mut d, observer_lat, observer_lon);
            d.append("°");
            d
        } else {
            let mut d: String =
                "現在から24時間以内に到来する予定の観測パス（全 ".to_owned();
            d.append(decimal(n as u64).as_str());
            d.append(" 件）です。\n観測地: 北緯 ");
            append_place(&mut d, observer_lat, observer_lon);
            d.append("° | 最小仰角: ");
            d.append(min_elev.fixed(1).as_str());
            d.append("° 以上");
            d
        };
        let today: i64 = jst_day(now);
        let mut fields: Vec<EmbedField> = Vec::new();
        let count: usize = shown_count(n);
        let mut i: usize = 0;
        assert(field_texts(fields@) =~= Seq::empty());
        while i < count
            invariant
                dated_passes(passes@),
                today == day_of(now as int),
                count <= passes@.len(),
                count <= MAX_SCHEDULE_FIELDS,
                i <= count,
                field_texts(fields@) == Seq::new(
                    i as nat,
                    |k: int|
                        schedule_field(passes@[k], k, dated_span_text(passes@[k], now as int)),
                ),
            decreases count - i,
        {
            let pass: &SatellitePass = &passes[i];
            let span: String = if jst_day(pass.aos) == today {
                pass_span(pass)
            } else {
                let mut t: String = jst_time(pass.aos).format_md_hm();
                t.append(" 〜 ");
                t.append(jst_time(pass.los).format_hm().as_str());
                t
            };
            push_schedule_field(&mut fields, pass, i, span.as_str());
            i = i + 1;
            assert(field_texts(fields@) =~= Seq::new(
                i as nat,
                |k: int| schedule_field(passes@[k], k, dated_span_text(passes@[k], now as int)),
            ));
        }
        Embed {
            title: "📡 【今後24時間の衛星通過予定】 (JST)".to_owned(),
            description,
            color: 0x3498DB,
            url: None,
            timestamp: None,
            fields,
            image_url: None,
            footer: footer_of_schedule(n),
        }
    }
}

/// An aircraft that is near.
#[derive(Clone, Debug)]
pub struct AircraftAlert {
    pub icao_hex: String,
    pub callsign: String,
    pub airline: Option<String>,
    pub aircraft_type: Option<String>,
    pub origin: Option<String>,
    pub destination: Option<String>,
    pub altitude_m: Binary64,
    pub speed_kmh: Binary64,
    pub distance_km: Binary64,
    pub photo_url: Option<String>,
    pub photographer: Option<String>,
    pub tar1090_url: String,
}

/// A height in metres as whole feet. A foot is 0.3048 m.
pub open spec fn feet_text(m: Binary64) -> Seq<char> {
    fixed_text(quotient(m, of_ratio(3_048, 10_000)), 0)
}

/// A height in metres as whole feet.
pub fn format_feet(m: Binary64) -> (r: String)
    ensures
        r@ == feet_text(m),
{
    m.over(Binary64::ratio(3_048, 10_000)).fixed(0)
}

/// The title of the card of an aircraft.
pub open spec fn aircraft_title(alert: AircraftAlert) -> Seq<char> {
    match alert.airline {
        Some(al) => "✈️ "@ + al@ + " "@ + alert.callsign@ + "便 が頭上を通過中！"@,
        None => "✈️ 航空機 "@ + alert.callsign@ + "便 が頭上を通過中！"@,
    }
}

/// Where an aircraft comes from and goes to, as far as it is known.
pub open spec fn aircraft_route_text(alert: AircraftAlert) -> Seq<char> {
    match (alert.origin, alert.destination) {
        (Some(orig), Some(dest)) => "🛫 "@ + orig@ + " ➜ 🛬 "@ + dest@,
        (Some(orig), None) => "🛫 "@ + orig@ + " 発"@,
        (None, Some(dest)) => "🛬 "@ + dest@ + " 行き"@,
        (None, None) => match alert.airline {
            Some(al) => "航空会社: "@ + al@,
            None => "コールサイン: "@ + alert.callsign@,
        },
    }
}

/// The fields of the card of an aircraft.
pub open spec fn aircraft_fields(alert: AircraftAlert) -> Seq<FieldText> {
    seq![
        FieldText {
            name: "🏷️ 機体"@,
            value: (match alert.aircraft_type {
                Some(t) => t@,
                None => "機種不明"@,
            }) + " (`"@ + alert.icao_hex@ + "`)"@,
            inline: true,
        },
        FieldText {
            name: "📏 最接近距離"@,
            value: fixed_text(alert.distance_km, 1) + " km"@,
            inline: true,
        },
        FieldText {
            name: "🧭 対地速度"@,
            value: fixed_text(alert.speed_kmh, 0) + " km/h"@,
            inline: true,
        },
        FieldText {
            name: "📐 飛行高度"@,
            value: fixed_text(alert.altitude_m, 0) + " m ("@ + feet_text(
                alert.altitude_m,
            ) + " ft)"@,
            inline: true,
        },
    ]
}

/// The card of an aircraft.
pub open spec fn aircraft_embed(alert: AircraftAlert, timestamp: Seq<char>) -> EmbedText {
    EmbedText {
        title: aircraft_title(alert),
        description: aircraft_route_text(alert),
        color: 0x3498DB,
        url: Some(without_trailing(alert.tar1090_url@, '/') + "/?icao="@ + alert.icao_hex@),
        timestamp: Some(timestamp),
        fields: aircraft_fields(alert),
        image_url: match alert.photo_url {
            Some(url) => if trimmed(url@).len() > 0 {
                Some(url@)
            } else {
                None
            },
            None => None,
        },
        footer: match alert.photographer {
            Some(name) => "Photo by "@ + name@ + " (Planespotters.net) • tar1090 Radar"@,
            None => "tar1090 Radar"@,
        },
    }
}

/// The title of the card of an aircraft.
fn title_of_aircraft(alert: &AircraftAlert) -> (r: String)
    ensures
        r@ == aircraft_title(*alert),
{
    let mut r: String = match &alert.airline {
        Some(al) => {
            let mut t: String = "✈️ ".to_owned();
            t.append(al.as_str());
            t.append(" ");
            t
        },
        None => "✈️ 航空機 ".to_owned(),
    };
    r.append(alert.callsign.as_str());
    r.append("便 が頭上を通過中！");
    r
}

/// Where an aircraft comes from and goes to, as far as it is known.
fn route_of_aircraft(alert: &AircraftAlert) -> (r: String)
    ensures
        r@ == aircraft_route_text(*alert),
{
    match &alert.origin {
        Some(orig) => {
            let mut r: String = "🛫 ".to_owned();
            r.append(orig.as_str());
            match &alert.destination {
                Some(dest) => {
                    r.append(" ➜ 🛬 ");
                    r.append(dest.as_str());
                },
                None => {
                    r.append(" 発");
                },
            }
            r
        },
        None => match &alert.destination {
            Some(dest) => {
                let mut r: String = "🛬 ".to_owned();
                r.append(dest.as_str());
                r.append(" 行き");
                r
            },
            None => match &alert.airline {
                Some(al) => {
                    let mut r: String = "航空会社: ".to_owned();
                    r.append(al.as_str());
                    r
                },
                None => {
                    let mut r: String = "コールサイン: ".to_owned();
                    r.append(alert.callsign.as_str());
                    r
                },
            },
        },
    }
}

/// The fields of the card of an aircraft.
fn fields_of_aircraft(alert: &AircraftAlert) -> (r: Vec<EmbedField>)
    ensures
        field_texts(r@) == aircraft_fields(*alert),
{
    let mut fields: Vec<EmbedField> = Vec::new();
    assert(field_texts(fields@) =~= Seq::empty());
    let mut body: String = match &alert.aircraft_type {
        Some(t) => t.as_str().to_owned(),
        None => "機種不明".to_owned(),
    };
    body.append(" (`");
    body.append(alert.icao_hex.as_str());
    body.append("`)");
    push_field(&mut fields, "🏷️ 機体", body.as_str(), true);
    let mut distance: String = alert.distance_km.fixed(1);
    distance.append(" km");
    push_field(&mut fields, "📏 最接近距離", distance.as_str(), true);
    let mut speed: String = alert.speed_kmh.fixed(0);
    speed.append(" km/h");
    push_field(&mut fields, "🧭 対地速度", speed.as_str(), true);
    let mut height: String = alert.altitude_m.fixed(0);
    height.append(" m (");
    height.append(format_feet(alert.altitude_m).as_str());
    height.append(" ft)");
    push_field(&mut fields, "📐 飛行高度", height.as_str(), true);
    assert(field_texts(fields@) =~= aircraft_fields(*alert));
    fields
}

/// What an attached file is.
#[derive(Clone, Copy, Debug, PartialEq, Eq, Structural)]
pub enum FileKind {
    Image,
    Audio,
}

/// A file that goes with a message.
#[derive(Clone, Debug)]
pub struct Attachment {
    pub kind: FileKind,
    /// The place among the attached files; the form field is `files[index]`.
    pub index: usize,
    pub file_name: String,
    pub mime: String,
}

/// An attached file, as plain values.
pub struct AttachmentText {
    pub kind: FileKind,
    pub index: int,
    pub file_name: Seq<char>,
    pub mime: Seq<char>,
}

/// What a list of attached files holds.
pub open spec fn attachment_texts(v: Seq<Attachment>) -> Seq<AttachmentText> {
    Seq::new(
        v.len(),
        |i: int|
            AttachmentText {
                kind: v[i].kind,
                index: v[i].index as int,
                file_name: v[i].file_name@,
                mime: v[i].mime@,
            },
    )
}

/// The image goes with the message: there is one, and it is not empty.
pub open spec fn attaches_image(image_len: Option<usize>) -> bool {
    image_len matches Some(n) && n > 0
}

/// The audio goes with the message: there is some, and not more than the channel takes.
pub open spec fn attaches_audio(audio_len: Option<usize>) -> bool {
    audio_len matches Some(n) && 0 < n <= MAX_DISCORD_AUDIO_BYTES
}

/// The files that go with a report.
pub open spec fn report_attachments(
    image_len: Option<usize>,
    audio_len: Option<usize>,
) -> Seq<AttachmentText> {
    let image = AttachmentText {
        kind: FileKind::Image,
        index: 0,
        file_name: "satellite_image.png"@,
        mime: "image/png"@,
    };
    let audio = AttachmentText {
        kind: FileKind::Audio,
        index: if attaches_image(image_len) {
            1
        } else {
            0
        },
        file_name: "satellite_audio.wav"@,
        mime: "audio/wav"@,
    };
    (if attaches_image(image_len) { seq![image] } else { Seq::empty() }) + (if attaches_audio(
        audio_len,
    ) {
        seq![audio]
    } else {
        Seq::empty()
    })
}

/// The attached files are numbered from zero in their order.
pub proof fn law_attachments_are_numbered(image_len: Option<usize>, audio_len: Option<usize>)
    ensures
        forall|i: int|
            0 <= i < report_attachments(image_len, audio_len).len() ==> (
            #[trigger] report_attachments(image_len, audio_len)[i]).index == i,
{
}

/// A message to the channel.
#[derive(Clone, Debug)]
pub struct Message {
    pub url: String,
    pub username: Option<String>,
    pub content: Option<String>,
    pub embed: Option<Embed>,
    pub attachments: Vec<Attachment>,
    /// It is sent as a form that can carry files, not as bare JSON.
    pub form: bool,
}

/// A message, as plain values.
pub struct MessageText {
    pub url: Seq<char>,
    pub username: Option<Seq<char>>,
    pub content: Option<Seq<char>>,
    pub embed: Option<EmbedText>,
    pub attachments: Seq<AttachmentText>,
    pub form: bool,
}

impl View for Message {
    type V = MessageText;

    open spec fn view(&self) -> MessageText {
        MessageText {
            url: self.url@,
            username: opt_text(self.username),
            content: opt_text(self.content),
            embed: match self.embed {
                Some(e) => Some(e@),
                None => None,
            },
            attachments: attachment_texts(self.attachments@),
            form: self.form,
        }
    }
}

/// What an optional message holds.
pub open spec fn opt_message(m: Option<Message>) -> Option<MessageText> {
    match m {
        Some(m) => Some(m@),
        None => None,
    }
}

/// Where messages go: nowhere unless they are switched on and the address is not blank.
pub open spec fn webhook(config: DiscordConfig) -> Option<Seq<char>> {
    match config.webhook_url {
        Some(url) => if config.enabled && trimmed(url@).len() > 0 {
            Some(trimmed(url@))
        } else {
            None
        },
        None => None,
    }
}

/// The text of the message of a report.
pub open spec fn report_content(report: PassReport) -> Seq<char> {
    "🛰️ **"@ + report.satellite_name@ + report_status(report).announcement()
}

/// The message of a report.
pub open spec fn report_message(
    config: DiscordConfig,
    report: PassReport,
    image_len: Option<usize>,
    audio_len: Option<usize>,
    timestamp: Seq<char>,
) -> Option<MessageText> {
    match webhook(config) {
        Some(url) => Some(
            MessageText {
                url,
                username: None,
                content: Some(report_content(report)),
                embed: Some(report_embed(report, timestamp)),
                attachments: report_attachments(image_len, audio_len),
                form: true,
            },
        ),
        None => None,
    }
}

/// A message with a text and perhaps a card.
pub open spec fn plain_message(
    config: DiscordConfig,
    content: Seq<char>,
    embed: Option<EmbedText>,
) -> Option<MessageText> {
    match webhook(config) {
        Some(url) => Some(
            MessageText {
                url,
                username: None,
                content: Some(content),
                embed,
                attachments: Seq::empty(),
                form: false,
            },
        ),
        None => None,
    }
}

/// Where messages go.
pub fn webhook_target(config: &DiscordConfig) -> (r: Option<&str>)
    ensures
        r is Some == webhook(*config) is Some,
        r is Some ==> Some(r->0@) == webhook(*config),
{
    if !config.enabled {
        return None;
    }
    match &config.webhook_url {
        Some(url) => {
            let t: &str = trim(url.as_str());
            if t.is_empty() {
                None
            } else {
                Some(t)
            }
        },
        None => None,
    }
}

/// The files that go with a report.
fn attachments_of_report(image_len: Option<usize>, audio_len: Option<usize>) -> (r: Vec<
    Attachment,
>)
    ensures
        attachment_texts(r@) == report_attachments(image_len, audio_len),
{
    let mut r: Vec<Attachment> = Vec::new();
    let mut index: usize = 0;
    if let Some(n) = image_len {
        if n > 0 {
            r.push(
                Attachment {
                    kind: FileKind::Image,
                    index,
                    file_name: "satellite_image.png".to_owned(),
                    mime: "image/png".to_owned(),
                },
            );
            index = 1;
        }
    }
    if let Some(n) = audio_len {
        if n > 0 && n <= MAX_DISCORD_AUDIO_BYTES {
            r.push(
                Attachment {
                    kind: FileKind::Audio,
                    index,
                    file_name: "satellite_audio.wav".to_owned(),
                    mime: "audio/wav".to_owned(),
                },
            );
        }
    }
    assert(attachment_texts(r@) =~= report_attachments(image_len, audio_len));
    r
}

/// How a message was received.
#[derive(Clone, Debug)]
pub enum SendOutcome {
    Delivered,
    /// Answered with an HTTP status that is no success.
    Refused { status: String, body: String },
    /// Not answered.
    Failed(String),
}

/// What the sender of a schedule is told: nothing where it was delivered, else the reason.
pub open spec fn schedule_error(outcome: SendOutcome) -> Option<Seq<char>> {
    match outcome {
        SendOutcome::Delivered => None,
        SendOutcome::Refused { status, body } => Some(
            "Discord 送信失敗 (HTTP "@ + status@ + "): "@ + body@,
        ),
        SendOutcome::Failed(e) => Some("Discord 送信エラー: "@ + e@),
    }
}

/// What the sender of a schedule is told.
pub fn schedule_send_result(outcome: &SendOutcome) -> (r: Result<(), String>)
    ensures
        r is Ok == schedule_error(*outcome) is None,
        r is Err ==> Some(r->Err_0@) == schedule_error(*outcome),
{
    match outcome {
        SendOutcome::Delivered => Ok(()),
        SendOutcome::Refused { status, body } => {
            let mut e: String = "Discord 送信失敗 (HTTP ".to_owned();
            e.append(status.as_str());
            e.append("): ");
            e.append(body.as_str());
            Err(e)
        },
        SendOutcome::Failed(cause) => {
            let mut e: String = "Discord 送信エラー: ".to_owned();
            e.append(cause.as_str());
            Err(e)
        },
    }
}

/// What the sender of an aircraft alert is told: an alert that was answered counts as sent, also
/// where the answer was a refusal.
pub fn aircraft_send_result(outcome: &SendOutcome) -> (r: Result<(), String>)
    ensures
        r is Ok == !(outcome is Failed),
        r is Err ==> r->Err_0@ == "Discord 航空機通知の送信に失敗しました"@,
{
    match outcome {
        SendOutcome::Failed(_) => Err("Discord 航空機通知の送信に失敗しました".to_owned()),
        _ => Ok(()),
    }
}

impl DiscordClient {
    /// The card of an aircraft.
    pub fn build_aircraft_embed(alert: &AircraftAlert, timestamp: &str) -> (r: Embed)
        ensures
            r@ == aircraft_embed(*alert, timestamp@),
    {
        let mut url: String = trim_end_matches(alert.tar1090_url.as_str(), '/').to_owned();
        url.append("/?icao=");
        url.append(alert.icao_hex.as_str());
        let footer: String = match &alert.photographer {
            Some(name) => {
                let mut f: String = "Photo by ".to_owned();
                f.append(name.as_str());
                f.append(" (Planespotters.net) • tar1090 Radar");
                f
            },
            None => "tar1090 Radar".to_owned(),
        };
        let image_url: Option<String> = match &alert.photo_url {
            Some(photo) => if trim(photo.as_str()).is_empty() {
                None
            } else {
                Some(photo.as_str().to_owned())
            },
            None => None,
        };
        Embed {
            title: title_of_aircraft(alert),
            description: route_of_aircraft(alert),
            color: 0x3498DB,
            url: Some(url),
            timestamp: Some(timestamp.to_owned()),
            fields: fields_of_aircraft(alert),
            image_url,
            footer,
        }
    }

    /// The message of a report: its text and card, with the image and the audio where they are
    /// there and fit. `None` where no message is to be sent.
    pub fn send_pass_report(
        &self,
        report: &PassReport,
        image_len: Option<usize>,
        audio_len: Option<usize>,
        timestamp: &str,
    ) -> (r: Option<Message>)
        ensures
            opt_message(r) == report_message(
                self.config,
                *report,
                image_len,
                audio_len,
                timestamp@,
            ),
    {
        match webhook_target(&self.config) {
            Some(url) => {
                let status: PassStatus = status_of_report(report);
                let mut content: String = "🛰️ **".to_owned();
                content.append(report.satellite_name.as_str());
                content.append(status.content_end());
                Some(
                    Message {
                        url: url.to_owned(),
                        username: None,
                        content: Some(content),
                        embed: Some(Self::build_embed(report, timestamp)),
                        attachments: attachments_of_report(image_len, audio_len),
                        form: true,
                    },
                )
            },
            None => None,
        }
    }

    /// A message with a text and perhaps a card.
    fn plain(&self, content: String, embed: Option<Embed>) -> (r: Option<Message>)
        ensures
            opt_message(r) == plain_message(
                self.config,
                content@,
                match embed {
                    Some(e) => Some(e@),
                    None => None,
                },
            ),
    {
        match webhook_target(&self.config) {
            Some(url) => {
                let attachments: Vec<Attachment> = Vec::new();
                assert(attachment_texts(attachments@) =~= Seq::empty());
                Some(
                    Message {
                        url: url.to_owned(),
                        username: None,
                        content: Some(content),
                        embed,
                        attachments,
                        form: false,
                    },
                )
            },
            None => None,
        }
    }

    /// The message of the schedule of a day.
    pub fn send_daily_schedule(
        &self,
        passes: &[SatellitePass],
        date_str: &str,
        observer_lat: Binary64,
        observer_lon: Binary64,
        min_elev: Binary64,
    ) -> (r: Option<Message>)
        requires
            dated_passes(passes@),
        ensures
            opt_message(r) == plain_message(
                self.config,
                "🌅 おはようございますなのだ！本日の衛星受信スケジュールをお届けするのだ！（予定パス: "@
                    + digits(passes@.len()) + "件）"@,
                Some(daily_embed(passes@, date_str@, observer_lat, observer_lon, min_elev)),
            ),
    {
        let embed: Embed = Self::build_daily_schedule_embed(
            passes,
            date_str,
            observer_lat,
            observer_lon,
            min_elev,
        );
        let mut content: String =
            "🌅 おはようございますなのだ！本日の衛星受信スケジュールをお届けするのだ！（予定パス: ".to_owned();
        content.append(decimal(passes.len() as u64).as_str());
        content.append("件）");
        self.plain(content, Some(embed))
    }

    /// The message of the schedule of the 24 hours from `now`.
    pub fn send_24h_schedule(
        &self,
        passes: &[SatellitePass],
        observer_lat: Binary64,
        observer_lon: Binary64,
        min_elev: Binary64,
        now: i64,
    ) -> (r: Option<Message>)
        requires
            dated_passes(passes@),
        ensures
            opt_message(r) == plain_message(
                self.config,
                "📡 今後24時間の衛星通過予定をお届けするのだ！（予定パス: "@ + digits(passes@.len())
                    + "件）"@,
                Some(day_ahead_embed(passes@, observer_lat, observer_lon, min_elev, now as int)),
            ),
    {
        let embed: Embed = Self::build_24h_schedule_embed(
            passes,
            observer_lat,
            observer_lon,
            min_elev,
            now,
        );
        let mut content: String =
            "📡 今後24時間の衛星通過予定をお届けするのだ！（予定パス: ".to_owned();
        content.append(decimal(passes.len() as u64).as_str());
        content.append("件）");
        self.plain(content, Some(embed))
    }

    /// A message with a text alone.
    pub fn send_text(&self, text: &str) -> (r: Option<Message>)
        ensures
            opt_message(r) == plain_message(self.config, text@, None),
    {
        self.plain(text.to_owned(), None)
    }

    /// The message of an aircraft.
    pub fn send_aircraft_alert(&self, alert: &AircraftAlert, timestamp: &str) -> (r: Option<
        Message,
    >)
        ensures
            opt_message(r) == match webhook(self.config) {
                Some(url) => Some(
                    MessageText {
                        url,
                        username: Some("NOAA Ground Station"@),
                        content: None,
                        embed: Some(aircraft_embed(*alert, timestamp@)),
                        attachments: Seq::empty(),
                        form: false,
                    },
                ),
                None => None,
            },
    {
        match webhook_target(&self.config) {
            Some(url) => {
                let attachments: Vec<Attachment> = Vec::new();
                assert(attachment_texts(attachments@) =~= Seq::empty());
                Some(
                    Message {
                        url: url.to_owned(),
                        username: Some("NOAA Ground Station".to_owned()),
                        content: None,
                        embed: Some(Self::build_aircraft_embed(alert, timestamp)),
                        attachments,
                        form: false,
                    },
                )
            },
            None => None,
        }
    }

    /// The report on an image received from a weather satellite.
    pub fn send_satellite_pass_report(
        sat_name: &str,
        max_elev: Binary64,
        direction: &str,
        freq_hz: u64,
        pass_time_str: &str,
        has_image: bool,
        next_pass_info: Option<String>,
    ) -> (r: PassReport)
        ensures
            r.satellite_name@ == sat_name@,
            r.signal_type_name@ == "APT / 衛星画像"@,
            r.max_elevation_deg == max_elev,
            r.direction@ == direction@,
            r.frequency_hz == freq_hz,
            r.pass_time_str@ == pass_time_str@,
            r.has_image == has_image,
            !r.has_audio,
            r.next_pass_info == next_pass_info,
            r.telemetry is Some,
            r.telemetry->0.snr_db == Some(of_integer(15)),
            opt_text(r.telemetry->0.lines_or_packets) == if has_image {
                Some("画像復元完了"@)
            } else {
                None
            },
            r.telemetry->0.housekeeping@.len() == 0,
            r.telemetry->0.status == if has_image {
                PassStatus::ImageDecoded
            } else {
                PassStatus::WeakSignal
            },
    {
        PassReport {
            satellite_name: sat_name.to_owned(),
            signal_type_name: "APT / 衛星画像".to_owned(),
            max_elevation_deg: max_elev,
            direction: direction.to_owned(),
            frequency_hz: freq_hz,
            pass_time_str: pass_time_str.to_owned(),
            telemetry: Some(
                SatelliteTelemetry {
                    snr_db: Some(Binary64::integer(15)),
                    lines_or_packets: if has_image {
                        Some("画像復元完了".to_owned())
                    } else {
                        None
                    },
                    housekeeping: Vec::new(),
                    status: if has_image {
                        PassStatus::ImageDecoded
                    } else {
                        PassStatus::WeakSignal
                    },
                },
            ),
            has_image,
            has_audio: false,
            next_pass_info,
        }
    }
}

/// A status is told by its colour: green for an image, blue for telemetry, turquoise for audio,
/// purple for a recording that is kept, orange for a weak signal and red for an error; and no two
/// statuses share a colour or words.
pub proof fn law_statuses_are_told_apart(a: PassStatus, b: PassStatus)
    ensures
        a.color() == b.color() ==> a == b,
        PassStatus::ImageDecoded.color() == 0x2ECC71,
        PassStatus::TelemetryDecoded.color() == 0x3498DB,
        PassStatus::AudioRecorded.color() == 0x1ABC9C,
        PassStatus::RawPreserved.color() == 0x9B59B6,
        PassStatus::WeakSignal.color() == 0xF39C12,
        PassStatus::DecodeError.color() == 0xE74C3C,
        a.words() == b.words() ==> a == b,
        a.headline() == b.headline() ==> a == b,
        has_text(PassStatus::ImageDecoded.words(), "画像"@),
        has_text(PassStatus::ImageDecoded.words(), "成功"@),
        has_text(PassStatus::TelemetryDecoded.words(), "テレメトリ"@),
        has_text(PassStatus::AudioRecorded.words(), "音声"@),
        has_text(PassStatus::RawPreserved.words(), "生データ保存"@),
        has_text(PassStatus::WeakSignal.words(), "電波微弱"@),
        has_text(PassStatus::DecodeError.words(), "異常"@),
        has_text(PassStatus::ImageDecoded.headline(), "デコード完了"@),
        has_text(PassStatus::WeakSignal.headline(), "電波微弱"@),
        has_text(PassStatus::DecodeError.headline(), "異常"@),
        has_text(PassStatus::DecodeError.announcement(), "異常"@),
        has_text(PassStatus::WeakSignal.announcement(), "微弱"@),
        has_text(PassStatus::ImageDecoded.announcement(), "画像デコードが完了"@),
{
    reveal_strlit("画像デコード成功");
    reveal_strlit("テレメトリ取得完了");
    reveal_strlit("交信音声録音完了");
    reveal_strlit("生データ保存完了 (未復調)");
    reveal_strlit("電波微弱 (生データ保存)");
    reveal_strlit("デコード異常");
    reveal_strlit("] 受信・デコード完了");
    reveal_strlit("] テレメトリ復調完了");
    reveal_strlit("] 交信音声録音完了");
    reveal_strlit("] 受信・生データ保存完了");
    reveal_strlit("] 電波微弱 (生データ保存)");
    reveal_strlit("] デコード異常");
    reveal_strlit("画像");
    reveal_strlit("成功");
    reveal_strlit("テレメトリ");
    reveal_strlit("音声");
    reveal_strlit("生データ保存");
    reveal_strlit("電波微弱");
    reveal_strlit("異常");
    reveal_strlit("デコード完了");
    reveal_strlit("微弱");
    reveal_strlit("画像デコードが完了");
    reveal_strlit("** の画像デコードが完了したのだ！宇宙からの最新観測データをお届けするのだ！");
    reveal_strlit("** の信号を受信したが微弱だったのだ。生データを保存したのだ！");
    reveal_strlit("** のデコード中に異常が発生したのだ。ログを確認してほしいのだ！");
    let image = PassStatus::ImageDecoded.words();
    assert(image.subrange(0, 2) =~= "画像"@);
    assert(occurs_at(image, "画像"@, 0));
    assert(image.subrange(6, 8) =~= "成功"@);
    assert(occurs_at(image, "成功"@, 6));
    let telemetry = PassStatus::TelemetryDecoded.words();
    assert(telemetry.subrange(0, 5) =~= "テレメトリ"@);
    assert(occurs_at(telemetry, "テレメトリ"@, 0));
    let audio = PassStatus::AudioRecorded.words();
    assert(audio.subrange(2, 4) =~= "音声"@);
    assert(occurs_at(audio, "音声"@, 2));
    let raw = PassStatus::RawPreserved.words();
    assert(raw.subrange(0, 6) =~= "生データ保存"@);
    assert(occurs_at(raw, "生データ保存"@, 0));
    let weak = PassStatus::WeakSignal.words();
    assert(weak.subrange(0, 4) =~= "電波微弱"@);
    assert(occurs_at(weak, "電波微弱"@, 0));
    let error = PassStatus::DecodeError.words();
    assert(error.subrange(4, 6) =~= "異常"@);
    assert(occurs_at(error, "異常"@, 4));
    assert(image[0] == '画' && telemetry[0] == 'テ' && audio[0] == '交' && raw[0] == '生' && weak[0]
        == '電' && error[0] == 'デ');
    let done = PassStatus::ImageDecoded.headline();
    assert(done.subrange(5, 11) =~= "デコード完了"@);
    assert(occurs_at(done, "デコード完了"@, 5));
    let faint = PassStatus::WeakSignal.headline();
    assert(faint.subrange(2, 6) =~= "電波微弱"@);
    assert(occurs_at(faint, "電波微弱"@, 2));
    let wrong = PassStatus::DecodeError.headline();
    assert(wrong.subrange(6, 8) =~= "異常"@);
    assert(occurs_at(wrong, "異常"@, 6));
    assert(done[2] == '受' && faint[2] == '電' && wrong[2] == 'デ');
    assert(PassStatus::TelemetryDecoded.headline()[2] == 'テ');
    assert(PassStatus::AudioRecorded.headline()[2] == '交');
    assert(PassStatus::RawPreserved.headline()[2] == '受' && PassStatus::RawPreserved.headline()[5]
        == '生' && done[5] == 'デ');
    let bad = PassStatus::DecodeError.announcement();
    assert(bad.subrange(10, 12) =~= "異常"@);
    assert(occurs_at(bad, "異常"@, 10));
    let thin = PassStatus::WeakSignal.announcement();
    assert(thin.subrange(12, 14) =~= "微弱"@);
    assert(occurs_at(thin, "微弱"@, 12));
    let good = PassStatus::ImageDecoded.announcement();
    assert(good.subrange(4, 13) =~= "画像デコードが完了"@);
    assert(occurs_at(good, "画像デコードが完了"@, 4));
}

/// A whole number of degrees is judged by its height: from 70 on excellent, from 45 on good, from
/// 20 on middling, and low below; a whole number of dB from 15 on clear and from 8 on good.
pub proof fn law_heights_and_signals_are_judged(n: nat)
    requires
        n < 0x20_0000_0000_0000,
    ensures
        n >= 70 ==> elevation_words(of_integer(n)) == "天頂付近・極めて良好"@,
        45 <= n < 70 ==> elevation_words(of_integer(n)) == "高仰角・良好"@,
        20 <= n < 45 ==> elevation_words(of_integer(n)) == "中仰角"@,
        n < 20 ==> elevation_words(of_integer(n)) == "低仰角 (建物遮蔽に注意)"@,
        n >= 15 ==> snr_words(of_integer(n)) == "極めて明瞭"@,
        8 <= n < 15 ==> snr_words(of_integer(n)) == "良好"@,
        n < 8 ==> snr_words(of_integer(n)) == "微弱"@,
{
    lemma_in_order(n, 70);
    lemma_in_order(n, 45);
    lemma_in_order(n, 20);
    lemma_in_order(n, 15);
    lemma_in_order(n, 8);
}

/// Two integers compare as the numbers that they are.
proof fn lemma_in_order(m: nat, n: nat)
    requires
        m < 0x20_0000_0000_0000,
        n < 0x20_0000_0000_0000,
    ensures
        of_integer(m).place() >= of_integer(n).place() <==> m >= n,
{
    if m < n {
        law_small_integers_are_in_order(m, n);
    } else if n < m {
        law_small_integers_are_in_order(n, m);
    }
}

/// A frequency is assigned to its band: weather satellites from 137 to 138.5 MHz, amateurs from 144
/// to 146 and from 435 to 438 MHz, the upper ends not included.
pub proof fn law_frequencies_have_their_band(freq_hz: int)
    ensures
        137_000_000 <= freq_hz < 138_500_000 <==> has_text(band_words(freq_hz), "気象衛星"@),
        144_000_000 <= freq_hz < 146_000_000 <==> has_text(band_words(freq_hz), "VHF"@),
        435_000_000 <= freq_hz < 438_000_000 <==> has_text(band_words(freq_hz), "UHF"@),
{
    reveal_strlit("137MHz 気象衛星帯");
    reveal_strlit("VHF 2m アマチュア宇宙無線帯");
    reveal_strlit("UHF 70cm アマチュア宇宙無線帯");
    reveal_strlit("宇宙無線帯");
    reveal_strlit("気象衛星");
    reveal_strlit("VHF");
    reveal_strlit("UHF");
    let w = band_words(freq_hz);
    if 137_000_000 <= freq_hz < 138_500_000 {
        assert(w.subrange(7, 11) =~= "気象衛星"@);
        assert(occurs_at(w, "気象衛星"@, 7));
    }
    if 144_000_000 <= freq_hz < 146_000_000 {
        assert(w.subrange(0, 3) =~= "VHF"@);
        assert(occurs_at(w, "VHF"@, 0));
    }
    if 435_000_000 <= freq_hz < 438_000_000 {
        assert(w.subrange(0, 3) =~= "UHF"@);
        assert(occurs_at(w, "UHF"@, 0));
    }
    if has_text(w, "気象衛星"@) {
        let i = choose|i: int| occurs_at(w, "気象衛星"@, i);
        assert(w.subrange(i, i + 4)[0] == '気');
        assert(w[i] == '気');
    }
    if has_text(w, "VHF"@) {
        let i = choose|i: int| occurs_at(w, "VHF"@, i);
        assert(w.subrange(i, i + 3)[0] == 'V');
        assert(w[i] == 'V');
    }
    if has_text(w, "UHF"@) {
        let i = choose|i: int| occurs_at(w, "UHF"@, i);
        assert(w.subrange(i, i + 3)[0] == 'U');
        assert(w[i] == 'U');
    }
}

/// The card of a report tells of its pass: the title names satellite and signal, the description
/// the status, and the fields hold height, direction and time, then frequency, band and signal,
/// then what was received. Audio is mentioned exactly where there is some, the next pass where it
/// is known, and an image is shown exactly where there is one.
pub proof fn law_report_card_tells_of_the_pass(report: PassReport, timestamp: Seq<char>)
    ensures
        ({
            let card = report_embed(report, timestamp);
            let status = report_status(report);
            &&& has_text(card.title, report.satellite_name@)
            &&& has_text(card.title, report.signal_type_name@)
            &&& status.headline().is_suffix_of(card.title)
            &&& has_text(card.description, status.words())
            &&& has_text(card.description, status.sign())
            &&& has_text(card.description, report.satellite_name@)
            &&& card.color == status.color()
            &&& card.timestamp == Some(timestamp)
            &&& card.image_url is Some <==> report.has_image
            &&& card.fields.len() == 3 + (if report.has_audio {
                1int
            } else {
                0
            }) + (if report.next_pass_info is Some {
                1int
            } else {
                0
            })
            &&& has_text(
                card.fields[0].value,
                "最大仰角**: "@ + fixed_text(report.max_elevation_deg, 1) + "°"@,
            )
            &&& has_text(card.fields[0].value, "ピーク方位**: "@ + report.direction@)
            &&& has_text(card.fields[0].value, "通過時間**: "@ + report.pass_time_str@)
            &&& has_text(card.fields[0].value, elevation_words(report.max_elevation_deg))
            &&& has_text(
                card.fields[1].value,
                "受信周波数**: `"@ + mhz_text(report.frequency_hz as nat) + " MHz"@,
            )
            &&& has_text(card.fields[1].value, band_words(report.frequency_hz as int))
            &&& has_text(card.fields[1].value, "信号方式**: "@ + report.signal_type_name@)
            &&& report.next_pass_info matches Some(info) ==> card.fields.last().value == info@
            &&& report.has_audio ==> has_text(card.fields[3].name, "音声"@)
        }),
        report.telemetry matches Some(t) ==> report_status(report) == t.status,
        report.telemetry is None ==> report_status(report) == if report.has_image {
            PassStatus::ImageDecoded
        } else {
            PassStatus::TelemetryDecoded
        },
{
    let card = report_embed(report, timestamp);
    let status = report_status(report);
    let name = report.satellite_name@;
    let signal = report.signal_type_name@;
    let end = status.headline();
    let sat = "🛰️ "@;
    assert(card.title =~= sat + name + (" ["@ + signal + end));
    lemma_has_part(sat, name, " ["@ + signal + end);
    lemma_has_part(sat + name + " ["@, signal, end);
    assert(card.title.subrange(card.title.len() - end.len(), card.title.len() as int) =~= end);
    let sign = status.sign();
    let label = " **ステータス**: "@;
    let what = summary_words(unicode_lower(name));
    let line = "\n> **"@;
    let colon = "**: "@;
    assert(card.description =~= "> "@ + sign + (label + status.words() + line + name + colon
        + what));
    lemma_has_part("> "@, sign, label + status.words() + line + name + colon + what);
    assert(card.description =~= ("> "@ + sign + label) + status.words() + (line + name + colon
        + what));
    lemma_has_part("> "@ + sign + label, status.words(), line + name + colon + what);
    assert(card.description =~= ("> "@ + sign + label + status.words() + line) + name + (colon
        + what));
    lemma_has_part("> "@ + sign + label + status.words() + line, name, colon + what);
    lemma_geometry_field(report);
    lemma_radio_field(report);
    reveal_strlit("🎵 受信音声 (WAV)");
    reveal_strlit("音声");
    assert("🎵 受信音声 (WAV)"@.subrange(4, 6) =~= "音声"@);
    assert(occurs_at("🎵 受信音声 (WAV)"@, "音声"@, 4));
}

/// The first field of a report.
proof fn lemma_geometry_field(report: PassReport)
    ensures
        ({
            let value = report_fields(report)[0].value;
            &&& has_text(
                value,
                "最大仰角**: "@ + fixed_text(report.max_elevation_deg, 1) + "°"@,
            )
            &&& has_text(value, elevation_words(report.max_elevation_deg))
            &&& has_text(value, "ピーク方位**: "@ + report.direction@)
            &&& has_text(value, "通過時間**: "@ + report.pass_time_str@)
        }),
{
    let value = report_fields(report)[0].value;
    let el = fixed_text(report.max_elevation_deg, 1);
    let words = elevation_words(report.max_elevation_deg);
    let a = "• **最大仰角**: "@;
    let b = "° ("@;
    let c = ")\n• **ピーク方位**: "@;
    let d = "\n• **通過時間**: "@;
    let dir = report.direction@;
    let time = report.pass_time_str@;
    reveal_strlit("• **最大仰角**: ");
    reveal_strlit("最大仰角**: ");
    reveal_strlit("° (");
    reveal_strlit("°");
    reveal_strlit(")\n• **ピーク方位**: ");
    reveal_strlit("ピーク方位**: ");
    reveal_strlit("\n• **通過時間**: ");
    reveal_strlit("通過時間**: ");
    assert(value =~= a + el + b + words + c + dir + d + time);
    assert(a =~= a.take(4) + "最大仰角**: "@);
    assert(b =~= "°"@ + b.skip(1));
    let first = "最大仰角**: "@ + el + "°"@;
    assert(value =~= a.take(4) + first + (b.skip(1) + words + c + dir + d + time));
    lemma_has_part(a.take(4), first, b.skip(1) + words + c + dir + d + time);
    assert(value =~= (a + el + b) + words + (c + dir + d + time));
    lemma_has_part(a + el + b, words, c + dir + d + time);
    assert(c =~= c.take(6) + "ピーク方位**: "@);
    let second = "ピーク方位**: "@ + dir;
    assert(value =~= (a + el + b + words + c.take(6)) + second + (d + time));
    lemma_has_part(a + el + b + words + c.take(6), second, d + time);
    assert(d =~= d.take(5) + "通過時間**: "@);
    let third = "通過時間**: "@ + time;
    assert(value =~= (a + el + b + words + c + dir + d.take(5)) + third + Seq::<char>::empty());
    lemma_has_part(a + el + b + words + c + dir + d.take(5), third, Seq::empty());
}

/// The second field of a report.
proof fn lemma_radio_field(report: PassReport)
    ensures
        ({
            let value = report_fields(report)[1].value;
            &&& has_text(
                value,
                "受信周波数**: `"@ + mhz_text(report.frequency_hz as nat) + " MHz"@,
            )
            &&& has_text(value, band_words(report.frequency_hz as int))
            &&& has_text(value, "信号方式**: "@ + report.signal_type_name@)
        }),
{
    let value = report_fields(report)[1].value;
    let mhz = mhz_text(report.frequency_hz as nat);
    let band = band_words(report.frequency_hz as int);
    let signal = report.signal_type_name@;
    let a = "• **受信周波数**: `"@;
    let b = " MHz`\n• **周波数帯**: "@;
    let c = "\n• **信号方式**: "@;
    reveal_strlit("• **受信周波数**: `");
    reveal_strlit("受信周波数**: `");
    reveal_strlit(" MHz`\n• **周波数帯**: ");
    reveal_strlit(" MHz");
    reveal_strlit("\n• **信号方式**: ");
    reveal_strlit("信号方式**: ");
    assert(value =~= a + mhz + b + band + c + signal);
    assert(a =~= a.take(4) + "受信周波数**: `"@);
    assert(b =~= " MHz"@ + b.skip(4));
    let first = "受信周波数**: `"@ + mhz + " MHz"@;
    assert(value =~= a.take(4) + first + (b.skip(4) + band + c + signal));
    lemma_has_part(a.take(4), first, b.skip(4) + band + c + signal);
    assert(value =~= (a + mhz + b) + band + (c + signal));
    lemma_has_part(a + mhz + b, band, c + signal);
    assert(c =~= c.take(5) + "信号方式**: "@);
    let second = "信号方式**: "@ + signal;
    assert(value =~= (a + mhz + b + band + c.take(5)) + second + Seq::<char>::empty());
    lemma_has_part(a + mhz + b + band + c.take(5), second, Seq::empty());
}

/// Everything that was received is in the report, each labelled value with its label.
pub proof fn law_telemetry_is_shown(t: SatelliteTelemetry, i: int)
    ensures
        0 <= i < t.housekeeping@.len() ==> health_lines(t).contains(
            t.housekeeping@[i].0@ + ": "@ + t.housekeeping@[i].1@,
        ),
        t.snr_db matches Some(snr) ==> exists|k: int|
            0 <= k < health_lines(t).len() && has_text(
                #[trigger] health_lines(t)[k],
                fixed_text(snr, 1) + " dB"@,
            ) && has_text(health_lines(t)[k], snr_words(snr)),
        t.lines_or_packets matches Some(s) ==> has_text(health_lines(t)[0], s@),
        health_lines(t).len() == t.housekeeping@.len() + (if t.snr_db is Some {
            1int
        } else {
            0
        }) + (if t.lines_or_packets is Some {
            1int
        } else {
            0
        }),
{
    let lines = health_lines(t);
    let n = t.housekeeping@.len();
    if 0 <= i < n {
        let k = lines.len() - n + i;
        assert(lines[k] == t.housekeeping@[i].0@ + ": "@ + t.housekeeping@[i].1@);
    }
    if let Some(s) = t.lines_or_packets {
        assert(lines[0] =~= "復調実績: "@ + s@ + Seq::<char>::empty());
        lemma_has_part("復調実績: "@, s@, Seq::empty());
    }
    if let Some(snr) = t.snr_db {
        let k: int = if t.lines_or_packets is Some {
            1
        } else {
            0
        };
        let a = "信号品質 (SNR): "@;
        let x = fixed_text(snr, 1);
        let b = " dB ("@;
        let w = snr_words(snr);
        reveal_strlit(" dB (");
        reveal_strlit(" dB");
        assert(lines[k] =~= a + x + b + w + ")"@);
        assert(b =~= " dB"@ + b.skip(3));
        assert(lines[k] =~= a + (x + " dB"@) + (b.skip(3) + w + ")"@));
        lemma_has_part(a, x + " dB"@, b.skip(3) + w + ")"@);
        lemma_has_part(a + x + b, w, ")"@);
    }
}

/// The field tells of the pass: under its number, with its satellite and signal, its length in
/// whole minutes, its height, direction and frequency, and how the antenna sees it.
pub open spec fn field_tells(f: FieldText, p: SatellitePass, i: int) -> bool {
    let minutes = digits(((p.los - p.aos) / 60_000) as nat);
    &&& (digits((i + 1) as nat) + "."@).is_prefix_of(f.name)
    &&& has_text(f.name, p.satellite_name@)
    &&& has_text(f.name, p.signal_type.display())
    &&& has_text(f.value, "("@ + minutes + "分間"@)
    &&& has_text(f.value, "最大 "@ + fixed_text(p.max_elevation_deg, 1) + "°"@)
    &&& has_text(f.value, compass_name(compass_point(p.peak_azimuth_deg)))
    &&& has_text(f.value, mhz_text(p.frequency_hz as nat) + " MHz"@)
    &&& has_text(
        f.value,
        if p.east_view() {
            "良好"@
        } else {
            "遮蔽"@
        },
    )
}

/// A schedule shows the passes in their order, each with what there is to tell of it and the time
/// from its beginning to its end.
pub proof fn law_schedules_show_the_passes(
    passes: Seq<SatellitePass>,
    date: Seq<char>,
    lat: Binary64,
    lon: Binary64,
    min_elev: Binary64,
    now: int,
    i: int,
)
    requires
        0 <= i < passes.len(),
        i < 25,
        passes[i].aos <= passes[i].los,
    ensures
        ({
            let day = daily_embed(passes, date, lat, lon, min_elev).fields[i];
            let ahead = day_ahead_embed(passes, lat, lon, min_elev, now).fields[i];
            &&& field_tells(day, passes[i], i)
            &&& field_tells(ahead, passes[i], i)
            &&& has_text(day.value, span_text(passes[i]))
            &&& has_text(ahead.value, dated_span_text(passes[i], now))
        }),
{
    lemma_schedule_field(passes[i], i, span_text(passes[i]));
    lemma_schedule_field(passes[i], i, dated_span_text(passes[i], now));
}

/// A schedule says how many passes there are and for which day, and how many are not shown.
pub proof fn law_schedules_count_the_passes(
    passes: Seq<SatellitePass>,
    date: Seq<char>,
    lat: Binary64,
    lon: Binary64,
    min_elev: Binary64,
    now: int,
)
    ensures
        ({
            let day = daily_embed(passes, date, lat, lon, min_elev);
            let ahead = day_ahead_embed(passes, lat, lon, min_elev, now);
            &&& has_text(day.title, date)
            &&& passes.len() > 0 ==> has_text(day.description, digits(passes.len()))
            &&& passes.len() > 0 ==> has_text(ahead.description, digits(passes.len()))
            &&& has_text(day.footer, "全 "@ + digits(passes.len()))
            &&& passes.len() > 25 ==> has_text(
                day.footer,
                "他 "@ + digits((passes.len() - 25) as nat),
            )
            &&& ahead.footer == day.footer
        }),
{
    let day = daily_embed(passes, date, lat, lon, min_elev);
    let ahead = day_ahead_embed(passes, lat, lon, min_elev, now);
    lemma_has_part("📅 【本日の衛星受信スケジュール】 "@, date, " (JST)"@);
    lemma_schedule_footer(passes.len() as int);
    if passes.len() > 0 {
        let n = digits(passes.len());
        let x = " 件）です。\n観測地: 北緯 "@;
        let y = fixed_text(lat, 2);
        let z = "°, 東経 "@;
        let u = fixed_text(lon, 2);
        let v = "° | 最小仰角: "@;
        let w = fixed_text(min_elev, 1);
        let e = "° 以上"@;
        let a = "本日ベランダ上空を通過する予定の観測パス（全 "@;
        let b = "現在から24時間以内に到来する予定の観測パス（全 "@;
        let place = x + y + z + u + v + w + e;
        assert(day.description =~= a + n + place);
        lemma_has_part(a, n, place);
        assert(ahead.description =~= b + n + place);
        lemma_has_part(b, n, place);
    }
}

/// The field of a pass in a schedule.
proof fn lemma_schedule_field(p: SatellitePass, i: int, span: Seq<char>)
    requires
        0 <= i,
        p.aos <= p.los,
    ensures
        field_tells(schedule_field(p, i, span), p, i),
        has_text(schedule_field(p, i, span).value, span),
{
    lemma_schedule_name(p, i, span);
    lemma_schedule_value(p, i, span);
}

/// The name of the field of a pass.
proof fn lemma_schedule_name(p: SatellitePass, i: int, span: Seq<char>)
    requires
        0 <= i,
    ensures
        ({
            let f = schedule_field(p, i, span);
            &&& (digits((i + 1) as nat) + "."@).is_prefix_of(f.name)
            &&& has_text(f.name, p.satellite_name@)
            &&& has_text(f.name, p.signal_type.display())
        }),
{
    let f = schedule_field(p, i, span);
    let number = digits((i + 1) as nat);
    let sat = ". 🛰️ "@;
    let name = p.satellite_name@;
    let signal = p.signal_type.display();
    reveal_strlit(". 🛰️ ");
    reveal_strlit(".");
    assert(f.name.subrange(0, number.len() as int + 1) =~= number + "."@);
    assert(f.name =~= (number + sat) + name + (" ["@ + signal + "]"@));
    lemma_has_part(number + sat, name, " ["@ + signal + "]"@);
    lemma_has_part(number + sat + name + " ["@, signal, "]"@);
}

/// What the field of a pass holds.
proof fn lemma_schedule_value(p: SatellitePass, i: int, span: Seq<char>)
    requires
        p.aos <= p.los,
    ensures
        ({
            let value = schedule_field(p, i, span).value;
            let minutes = digits(((p.los - p.aos) / 60_000) as nat);
            &&& has_text(value, span)
            &&& has_text(value, "("@ + minutes + "分間"@)
            &&& has_text(value, "最大 "@ + fixed_text(p.max_elevation_deg, 1) + "°"@)
            &&& has_text(value, compass_name(compass_point(p.peak_azimuth_deg)))
            &&& has_text(value, mhz_text(p.frequency_hz as nat) + " MHz"@)
            &&& has_text(
                value,
                if p.east_view() {
                    "良好"@
                } else {
                    "遮蔽"@
                },
            )
        }),
{
    let minutes = digits(((p.los - p.aos) / 60_000) as nat);
    let el = fixed_text(p.max_elevation_deg, 1);
    let dir = compass_name(compass_point(p.peak_azimuth_deg));
    let mhz = mhz_text(p.frequency_hz as nat);
    let view = if p.east_view() {
        "☀️東見通し良好"@
    } else {
        "🏢西遮蔽注意"@
    };
    let word = if p.east_view() {
        "良好"@
    } else {
        "遮蔽"@
    };
    let b = " ("@;
    let c = "分間)\n📐 最大 "@;
    let d = "° ("@;
    let to_span = "⏱️ "@ + span;
    let to_b = to_span + b;
    let to_minutes = to_b + minutes;
    let to_c = to_minutes + c;
    let to_el = to_c + el;
    let to_d = to_el + d;
    let to_dir = to_d + dir;
    let to_slash = to_dir + " / "@;
    let to_view = to_slash + view;
    let to_e = to_view + ") | 📡 "@;
    let to_mhz = to_e + mhz;
    let value = to_mhz + " MHz"@;
    assert(value == schedule_field(p, i, span).value);
    lemma_whole(value);
    lemma_in_front(to_mhz, " MHz"@, value);
    lemma_in_front(to_e, mhz, value);
    lemma_in_front(to_view, ") | 📡 "@, value);
    lemma_in_front(to_slash, view, value);
    lemma_in_front(to_dir, " / "@, value);
    lemma_in_front(to_d, dir, value);
    lemma_in_front(to_el, d, value);
    lemma_in_front(to_c, el, value);
    lemma_in_front(to_minutes, c, value);
    lemma_in_front(to_b, minutes, value);
    lemma_in_front(to_span, b, value);
    lemma_schedule_words();
    lemma_part_behind("⏱️ "@, span);
    lemma_front_has(to_span, value, span);
    lemma_part_between(to_span, b, "("@, minutes, c, "分間"@);
    lemma_front_has(to_c, value, "("@ + minutes + "分間"@);
    lemma_part_between(to_minutes, c, "最大 "@, el, d, "°"@);
    lemma_front_has(to_d, value, "最大 "@ + el + "°"@);
    lemma_part_behind(to_d, dir);
    lemma_front_has(to_dir, value, dir);
    lemma_has_behind(to_slash, view, word);
    lemma_front_has(to_view, value, word);
    lemma_part_behind(to_e, mhz + " MHz"@);
    lemma_sum(to_e, mhz, " MHz"@);
}

/// How parts are grouped does not matter.
proof fn lemma_sum(a: Seq<char>, b: Seq<char>, c: Seq<char>)
    ensures
        a + (b + c) == a + b + c,
{
    assert(a + (b + c) =~= a + b + c);
}

/// The words in the field of a pass.
proof fn lemma_schedule_words()
    ensures
        "("@.is_suffix_of(" ("@),
        "分間"@.is_prefix_of("分間)\n📐 最大 "@),
        "最大 "@.is_suffix_of("分間)\n📐 最大 "@),
        "°"@.is_prefix_of("° ("@),
        has_text("☀️東見通し良好"@, "良好"@),
        has_text("🏢西遮蔽注意"@, "遮蔽"@),
{
    reveal_strlit(" (");
    reveal_strlit("(");
    reveal_strlit("分間)\n📐 最大 ");
    reveal_strlit("分間");
    reveal_strlit("最大 ");
    reveal_strlit("° (");
    reveal_strlit("°");
    reveal_strlit("☀️東見通し良好");
    reveal_strlit("🏢西遮蔽注意");
    reveal_strlit("良好");
    reveal_strlit("遮蔽");
    let c = "分間)\n📐 最大 "@;
    lemma_ends_with(" ("@, "("@);
    assert(c.subrange(0, 2) =~= "分間"@);
    lemma_ends_with(c, "最大 "@);
    assert("° ("@.subrange(0, 1) =~= "°"@);
    let east = "☀️東見通し良好"@;
    let k = east.len() - 2;
    assert(east.subrange(k, k + 2) =~= "良好"@);
    assert(occurs_at(east, "良好"@, k));
    let west = "🏢西遮蔽注意"@;
    assert(west.subrange(2, 4) =~= "遮蔽"@);
    assert(occurs_at(west, "遮蔽"@, 2));
}

/// The last part is held.
proof fn lemma_part_behind(front: Seq<char>, part: Seq<char>)
    ensures
        has_text(front + part, part),
{
    assert(front + part + Seq::<char>::empty() =~= front + part);
    lemma_has_part(front, part, Seq::empty());
}

/// A value stands between the end of one label and the beginning of the next.
proof fn lemma_part_between(
    front: Seq<char>,
    label: Seq<char>,
    word: Seq<char>,
    value: Seq<char>,
    next: Seq<char>,
    unit: Seq<char>,
)
    requires
        word.is_suffix_of(label),
        unit.is_prefix_of(next),
    ensures
        has_text(front + label + value + next, word + value + unit),
{
    let column = value + next;
    let part = value + unit;
    assert(part.is_prefix_of(column)) by {
        assert(next.subrange(0, unit.len() as int) =~= unit);
        assert(column.subrange(0, part.len() as int) =~= part);
    }
    lemma_has_across(front, label, word, column, part);
    assert(front + label + column =~= front + label + value + next);
    assert(word + part =~= word + value + unit);
}

/// The footer of a schedule.
proof fn lemma_schedule_footer(n: int)
    requires
        n >= 0,
    ensures
        has_text(schedule_footer(n), "全 "@ + digits(n as nat)),
        n > 25 ==> has_text(schedule_footer(n), "他 "@ + digits((n - 25) as nat)),
{
    let f = schedule_footer(n);
    let a = "Radio Astronomy • GPD Pocket3 自律地上局 (全 "@;
    reveal_strlit("Radio Astronomy • GPD Pocket3 自律地上局 (全 ");
    reveal_strlit("全 ");
    let k = a.len() - 2;
    assert(a =~= a.take(k) + "全 "@);
    let count = digits(n as nat);
    if n > 25 {
        let b = " 件中 25 件を表示 / 他 "@;
        let rest = digits((n - 25) as nat);
        let c = " 件)"@;
        reveal_strlit(" 件中 25 件を表示 / 他 ");
        reveal_strlit("他 ");
        let m = b.len() - 2;
        assert(b =~= b.take(m) + "他 "@);
        assert(f =~= a.take(k) + ("全 "@ + count) + (b + rest + c));
        lemma_has_part(a.take(k), "全 "@ + count, b + rest + c);
        assert(f =~= (a + count + b.take(m)) + ("他 "@ + rest) + c);
        lemma_has_part(a + count + b.take(m), "他 "@ + rest, c);
    } else {
        let c = " 件)"@;
        assert(f =~= a.take(k) + ("全 "@ + count) + c);
        lemma_has_part(a.take(k), "全 "@ + count, c);
    }
}

/// The times of a pass are its own: first its beginning, then its end, in Japan; the date stands
/// with it where it begins on another day.
pub proof fn law_spans_are_from_beginning_to_end(pass: SatellitePass, now: int)
    ensures
        hm_text(jst_of(pass.aos as int)).is_prefix_of(span_text(pass)),
        hm_text(jst_of(pass.los as int)).is_suffix_of(span_text(pass)),
        hm_text(jst_of(pass.los as int)).is_suffix_of(dated_span_text(pass, now)),
        day_of(pass.aos as int) == day_of(now) ==> dated_span_text(pass, now) == span_text(pass),
        day_of(pass.aos as int) != day_of(now) ==> md_hm_text(
            jst_of(pass.aos as int),
        ).is_prefix_of(dated_span_text(pass, now)),
{
    let a = hm_text(jst_of(pass.aos as int));
    let l = hm_text(jst_of(pass.los as int));
    let m = md_hm_text(jst_of(pass.aos as int));
    let s = span_text(pass);
    let d = dated_span_text(pass, now);
    assert(s.subrange(0, a.len() as int) =~= a);
    assert(s.subrange(s.len() - l.len(), s.len() as int) =~= l);
    assert(d.subrange(d.len() - l.len(), d.len() as int) =~= l);
    if day_of(pass.aos as int) != day_of(now) {
        assert(d.subrange(0, m.len() as int) =~= m);
    }
}

/// The card of an aircraft tells of that aircraft: call sign and airline in the title, where it
/// comes from before where it goes to, each measurement with its unit, a link to the aircraft on
/// the radar, and the photo where there is one.
pub proof fn law_aircraft_card_tells_of_the_aircraft(alert: AircraftAlert, timestamp: Seq<char>)
    ensures
        ({
            let card = aircraft_embed(alert, timestamp);
            &&& has_text(card.title, alert.callsign@)
            &&& alert.airline matches Some(al) ==> has_text(card.title, al@)
            &&& alert.origin is Some && alert.destination is Some ==> has_text(
                card.description,
                alert.origin->0@ + " ➜ 🛬 "@ + alert.destination->0@,
            )
            &&& alert.origin is Some && alert.destination is None ==> has_text(
                card.description,
                alert.origin->0@ + " 発"@,
            )
            &&& alert.origin is None && alert.destination is Some ==> has_text(
                card.description,
                alert.destination->0@ + " 行き"@,
            )
            &&& (card.url matches Some(url) && ("/?icao="@ + alert.icao_hex@).is_suffix_of(url)
                && without_trailing(alert.tar1090_url@, '/').is_prefix_of(url))
            &&& has_text(card.fields[0].value, alert.icao_hex@)
            &&& alert.aircraft_type matches Some(t) ==> t@.is_prefix_of(card.fields[0].value)
            &&& card.fields[1].value == fixed_text(alert.distance_km, 1) + " km"@
            &&& card.fields[2].value == fixed_text(alert.speed_kmh, 0) + " km/h"@
            &&& (fixed_text(alert.altitude_m, 0) + " m"@).is_prefix_of(card.fields[3].value)
            &&& has_text(card.fields[3].value, feet_text(alert.altitude_m) + " ft"@)
            &&& has_text(card.fields[1].name, "距離"@)
            &&& has_text(card.fields[2].name, "速度"@)
            &&& has_text(card.fields[3].name, "高度"@)
            &&& alert.photo_url matches Some(url) ==> (card.image_url == Some(url@) <==> trimmed(
                url@,
            ).len() > 0)
            &&& alert.photo_url is None ==> card.image_url is None
            &&& alert.photographer matches Some(who) ==> has_text(card.footer, who@)
        }),
{
    let card = aircraft_embed(alert, timestamp);
    let sign = alert.callsign@;
    let t1 = "便 が頭上を通過中！"@;
    match alert.airline {
        Some(al) => {
            assert(card.title =~= ("✈️ "@ + al@ + " "@) + sign + t1);
            lemma_has_part("✈️ "@ + al@ + " "@, sign, t1);
            assert(card.title =~= "✈️ "@ + al@ + (" "@ + sign + t1));
            lemma_has_part("✈️ "@, al@, " "@ + sign + t1);
        },
        None => {
            lemma_has_part("✈️ 航空機 "@, sign, t1);
        },
    }
    let up = "🛫 "@;
    let down = "🛬 "@;
    let e = Seq::<char>::empty();
    match (alert.origin, alert.destination) {
        (Some(o), Some(d)) => {
            let way = o@ + " ➜ 🛬 "@ + d@;
            assert(card.description =~= up + way + e);
            lemma_has_part(up, way, e);
        },
        (Some(o), None) => {
            assert(card.description =~= up + (o@ + " 発"@) + e);
            lemma_has_part(up, o@ + " 発"@, e);
        },
        (None, Some(d)) => {
            assert(card.description =~= down + (d@ + " 行き"@) + e);
            lemma_has_part(down, d@ + " 行き"@, e);
        },
        (None, None) => {},
    }
    let url = card.url->0;
    let link = "/?icao="@ + alert.icao_hex@;
    assert(url.subrange(url.len() - link.len(), url.len() as int) =~= link);
    let radar = without_trailing(alert.tar1090_url@, '/');
    assert(url.subrange(0, radar.len() as int) =~= radar);
    let kind = match alert.aircraft_type {
        Some(t) => t@,
        None => "機種不明"@,
    };
    lemma_has_part(kind + " (`"@, alert.icao_hex@, "`)"@);
    assert(card.fields[0].value.subrange(0, kind.len() as int) =~= kind);
    let m = fixed_text(alert.altitude_m, 0);
    let ft = feet_text(alert.altitude_m);
    let v = card.fields[3].value;
    reveal_strlit(" m (");
    reveal_strlit(" m");
    reveal_strlit(" ft)");
    reveal_strlit(" ft");
    assert(v.subrange(0, m.len() as int + 2) =~= m + " m"@);
    let close = " ft)"@.skip(3);
    assert(" ft)"@ =~= " ft"@ + close);
    assert(v =~= (m + " m ("@) + (ft + " ft"@) + close);
    lemma_has_part(m + " m ("@, ft + " ft"@, close);
    reveal_strlit("📏 最接近距離");
    reveal_strlit("距離");
    reveal_strlit("🧭 対地速度");
    reveal_strlit("速度");
    reveal_strlit("📐 飛行高度");
    reveal_strlit("高度");
    assert("📏 最接近距離"@.subrange(5, 7) =~= "距離"@);
    assert(occurs_at("📏 最接近距離"@, "距離"@, 5));
    assert("🧭 対地速度"@.subrange(4, 6) =~= "速度"@);
    assert(occurs_at("🧭 対地速度"@, "速度"@, 4));
    assert("📐 飛行高度"@.subrange(4, 6) =~= "高度"@);
    assert(occurs_at("📐 飛行高度"@, "高度"@, 4));
    if let Some(who) = alert.photographer {
        lemma_has_part("Photo by "@, who@, " (Planespotters.net) • tar1090 Radar"@);
    }
}

/// Messages go out exactly where they are switched on and have an address: to that address, without
/// the white space around it.
pub proof fn law_messages_go_to_the_address(
    config: DiscordConfig,
    report: PassReport,
    image_len: Option<usize>,
    audio_len: Option<usize>,
    timestamp: Seq<char>,
)
    ensures
        webhook(config) is Some <==> config.enabled && config.webhook_url is Some && trimmed(
            config.webhook_url->0@,
        ).len() > 0,
        webhook(config) is Some ==> webhook(config) == Some(trimmed(config.webhook_url->0@)),
        ({
            let m = report_message(config, report, image_len, audio_len, timestamp);
            &&& m is Some <==> webhook(config) is Some
            &&& m matches Some(x) ==> {
                &&& Some(x.url) == webhook(config)
                &&& x.embed == Some(report_embed(report, timestamp))
                &&& x.form
                &&& x.content is Some
                &&& has_text(x.content->0, report.satellite_name@)
            }
        }),
{
    let end = report_status(report).announcement();
    lemma_has_part("🛰️ **"@, report.satellite_name@, end);
}

/// An image goes with a report where there is one that is not empty, and audio where there is some
/// of eight MiB at most; the image comes first, and each file is sent as what it is.
pub proof fn law_files_go_with_the_report(image_len: Option<usize>, audio_len: Option<usize>)
    ensures
        ({
            let files = report_attachments(image_len, audio_len);
            let image = image_len is Some && image_len->0 > 0;
            let audio = audio_len is Some && 0 < audio_len->0 <= 8 * 1024 * 1024;
            &&& files.len() == (if image {
                1int
            } else {
                0
            }) + (if audio {
                1int
            } else {
                0
            })
            &&& image ==> files[0].kind == FileKind::Image && files[0].mime == "image/png"@
                && files[0].file_name == "satellite_image.png"@
            &&& audio ==> files.last().kind == FileKind::Audio && files.last().mime == "audio/wav"@
                && files.last().file_name == "satellite_audio.wav"@
        }),
{
}

/// A schedule counts as sent only where it was delivered; else the sender is told the answer or
/// the failure.
pub proof fn law_only_delivery_is_success(outcome: SendOutcome)
    ensures
        schedule_error(outcome) is None <==> outcome is Delivered,
        outcome matches SendOutcome::Refused { status, body } ==> has_text(
            schedule_error(outcome)->0,
            "HTTP "@ + status@,
        ) && body@.is_suffix_of(schedule_error(outcome)->0),
        outcome matches SendOutcome::Failed(e) ==> e@.is_suffix_of(schedule_error(outcome)->0),
{
    match outcome {
        SendOutcome::Refused { status, body } => {
            let text = schedule_error(outcome)->0;
            let a = "Discord 送信失敗 (HTTP "@;
            reveal_strlit("Discord 送信失敗 (HTTP ");
            reveal_strlit("HTTP ");
            let k = a.len() - 5;
            assert(a =~= a.take(k) + "HTTP "@);
            assert(text =~= a.take(k) + ("HTTP "@ + status@) + ("): "@ + body@));
            lemma_has_part(a.take(k), "HTTP "@ + status@, "): "@ + body@);
            assert(text.subrange(text.len() - body@.len(), text.len() as int) =~= body@);
        },
        SendOutcome::Failed(e) => {
            let text = schedule_error(outcome)->0;
            assert(text.subrange(text.len() - e@.len(), text.len() as int) =~= e@);
        },
        SendOutcome::Delivered => {},
    }
}

/// A frequency of whole megahertz is written as that number, with four zeros behind the point.
pub proof fn law_whole_megahertz_are_written(mhz: nat)
    requires
        mhz <= 9_000_000_000,
    ensures
        mhz_text(mhz * 1_000_000) == digits(mhz) + ".0000"@,
{
    law_small_quotients_are_exact(mhz, 1_000_000);
    law_whole_numbers_are_written(mhz);
}

/// The words by which a satellite is known.
pub open spec fn known_words() -> Seq<Seq<char>> {
    seq![
        "meteor"@,
        "noaa"@,
        "umka"@,
        "funcube"@,
        "sonate"@,
        "so-50"@,
        "cas-4"@,
        "iss"@,
        "zarya"@,
        "xw-2"@,
        "cas-3"@,
    ]
}

/// The name holds this one of the words by which satellites are known, and no other.
pub open spec fn names_only(lower: Seq<char>, word: Seq<char>) -> bool {
    &&& has_text(lower, word)
    &&& forall|i: int|
        0 <= i < known_words().len() && #[trigger] known_words()[i] != word ==> !has_text(
            lower,
            known_words()[i],
        )
}

/// A satellite is described by its name: one whose name holds a known word, and no other, as the
/// satellite that the word stands for, and one whose name holds none as some spacecraft.
pub proof fn law_satellites_are_described_by_name(lower: Seq<char>)
    ensures
        names_only(lower, "meteor"@) ==> summary_words(lower) == "極軌道ロシア気象衛星 (MSU-MR デジタル地球観測)"@,
        names_only(lower, "noaa"@) ==> summary_words(lower) == "極軌道米国気象衛星 (AVHRR アナログ雲画像)"@,
        names_only(lower, "umka"@) ==> summary_words(lower) == "超小型反射望遠鏡搭載 3U CubeSat (RS40S / NORAD 57172)"@,
        names_only(lower, "funcube"@) ==> summary_words(lower) == "高感度VHFビーコン・宇宙環境WODテレメトリ CubeSat (AO-73 / NORAD 39444)"@,
        names_only(lower, "sonate"@) ==> summary_words(lower) == "AI画像認識実証 6U CubeSat (NORAD 59112)"@,
        names_only(lower, "so-50"@) ==> summary_words(lower) == "FMボイストランスポンダー中継器 (SaudiSat 1C / NORAD 27607)"@,
        names_only(lower, "cas-4"@) ==> summary_words(lower) == "高利得CWモールステレメトリビーコン CubeSat (NORAD 42761)"@,
        names_only(lower, "iss"@) ==> summary_words(lower) == "国際宇宙ステーション (ARISS アマチュア無線局 / NORAD 25544)"@,
        names_only(lower, "zarya"@) ==> summary_words(lower) == "国際宇宙ステーション (ARISS アマチュア無線局 / NORAD 25544)"@,
        names_only(lower, "xw-2"@) ==> summary_words(lower) == "超高SNR常時CWビーコン微小衛星 (XW-2A / NORAD 40903)"@,
        names_only(lower, "cas-3"@) ==> summary_words(lower) == "超高SNR常時CWビーコン微小衛星 (XW-2A / NORAD 40903)"@,
        (forall|i: int|
            0 <= i < known_words().len() ==> !has_text(lower, #[trigger] known_words()[i]))
            ==> summary_words(lower) == "軌道周回宇宙機 (Radio Astronomy 自律地上局追尾)"@,
{
    let all = known_words();
    assert(all[0] == "meteor"@);
    assert(all[1] == "noaa"@);
    assert(all[2] == "umka"@);
    assert(all[3] == "funcube"@);
    assert(all[4] == "sonate"@);
    assert(all[5] == "so-50"@);
    assert(all[6] == "cas-4"@);
    assert(all[7] == "iss"@);
    assert(all[8] == "zarya"@);
    assert(all[9] == "xw-2"@);
    assert(all[10] == "cas-3"@);
    reveal_strlit("meteor");
    reveal_strlit("noaa");
    reveal_strlit("umka");
    reveal_strlit("funcube");
    reveal_strlit("sonate");
    reveal_strlit("so-50");
    reveal_strlit("cas-4");
    reveal_strlit("iss");
    reveal_strlit("zarya");
    reveal_strlit("xw-2");
    reveal_strlit("cas-3");
    assert("meteor"@[0] == 'm' && "meteor"@[5] == 'r');
    assert("noaa"@[0] == 'n' && "noaa"@[3] == 'a');
    assert("umka"@[0] == 'u' && "umka"@[3] == 'a');
    assert("funcube"@[0] == 'f' && "funcube"@[6] == 'e');
    assert("sonate"@[0] == 's' && "sonate"@[5] == 'e');
    assert("so-50"@[0] == 's' && "so-50"@[4] == '0');
    assert("cas-4"@[0] == 'c' && "cas-4"@[4] == '4');
    assert("iss"@[0] == 'i' && "iss"@[2] == 's');
    assert("zarya"@[0] == 'z' && "zarya"@[4] == 'a');
    assert("xw-2"@[0] == 'x' && "xw-2"@[3] == '2');
    assert("cas-3"@[0] == 'c' && "cas-3"@[4] == '3');
}

/// A status is shown by a sign of its colour: green where there is something to see or hear, red
/// where something is wrong.
pub proof fn law_statuses_have_their_sign()
    ensures
        PassStatus::ImageDecoded.sign() == "🟢"@,
        PassStatus::TelemetryDecoded.sign() == "🔵"@,
        PassStatus::AudioRecorded.sign() == "🟢"@,
        PassStatus::RawPreserved.sign() == "🟣"@,
        PassStatus::WeakSignal.sign() == "🟠"@,
        PassStatus::DecodeError.sign() == "🔴"@,
{
}

/// What was received is shown in one block, line by line, and a report without any says so.
pub proof fn law_received_lines_are_shown_in_a_block(report: PassReport)
    ensures
        report_fields(report)[2].value == health_block(report),
        report_lines(report).len() > 0 ==> has_text(
            health_block(report),
            joined(report_lines(report), "\n"@),
        ),
        report_lines(report).len() == 0 ==> has_text(health_block(report), "未復調"@),
        report.telemetry matches Some(t) ==> report_lines(report) == health_lines(t),
        report.telemetry is None ==> report_lines(report).len() == 0,
{
    let lines = joined(report_lines(report), "\n"@);
    lemma_has_part("```yaml\n"@, lines, "\n```"@);
    let none = "```yaml\nデコード状況: 未復調 (生データ保存完了)\n```"@;
    reveal_strlit("```yaml\nデコード状況: 未復調 (生データ保存完了)\n```");
    reveal_strlit("未復調");
    assert(none.subrange(16, 19) =~= "未復調"@);
    assert(occurs_at(none, "未復調"@, 16));
}

/// A message without files goes to the same address under the same condition, with the text and
/// the card that it was given.
pub proof fn law_plain_messages_go_to_the_address(
    config: DiscordConfig,
    content: Seq<char>,
    embed: Option<EmbedText>,
)
    ensures
        plain_message(config, content, embed) is Some <==> config.enabled
            && config.webhook_url is Some && trimmed(config.webhook_url->0@).len() > 0,
        plain_message(config, content, embed) matches Some(m) ==> m.url == trimmed(
            config.webhook_url->0@,
        ) && m.content == Some(content) && m.embed == embed && m.attachments.len() == 0 && !m.form,
{
}

/// The plain values of telemetry, of a card, of a file and of a message are those that they hold.
pub proof fn law_messages_are_what_they_say(
    t: SatelliteTelemetry,
    card: Embed,
    files: Seq<Attachment>,
    m: Message,
    i: int,
)
    ensures
        t@.snr_db == t.snr_db,
        t@.lines_or_packets == opt_text(t.lines_or_packets),
        t@.housekeeping == pairs(t.housekeeping@),
        t@.status == t.status,
        card@.title == card.title@,
        card@.description == card.description@,
        card@.color == card.color,
        card@.url == opt_text(card.url),
        card@.timestamp == opt_text(card.timestamp),
        card@.image_url == opt_text(card.image_url),
        card@.footer == card.footer@,
        card@.fields.len() == card.fields@.len(),
        0 <= i < card.fields@.len() ==> card@.fields[i] == (FieldText {
            name: card.fields@[i].name@,
            value: card.fields@[i].value@,
            inline: card.fields@[i].inline,
        }),
        attachment_texts(files).len() == files.len(),
        0 <= i < files.len() ==> attachment_texts(files)[i] == (AttachmentText {
            kind: files[i].kind,
            index: files[i].index as int,
            file_name: files[i].file_name@,
            mime: files[i].mime@,
        }),
        m@.url == m.url@,
        m@.username == opt_text(m.username),
        m@.content == opt_text(m.content),
        m@.attachments == attachment_texts(m.attachments@),
        m@.form == m.form,
        m.embed is None <==> m@.embed is None,
        m.embed matches Some(e) ==> m@.embed == Some(e@),
        opt_message(Some(m)) == Some(m@),
        opt_message(None) is None,
{
}

} // verus!
