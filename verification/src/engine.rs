//! The decoding of a recorded pass, step by step. Each step asks for one piece of outside work;
//! what that work found decides the next step, up to the result.

use crate::decoder::{
    best_image, build_noaa_apt_args, build_satdump_cubesat_args,
    build_satdump_lrpt_args_with_pipeline, cubesat_args, error_snippet, extract_error_snippet,
    extract_telemetry_from_dir, find_best_image_in_dir, has_cadu, has_cadu_files,
    law_cubesat_options_have_their_values, law_lrpt_options_have_their_values,
    law_noaa_apt_writes_the_image, lrpt_args, noaa_apt_args, opt_str, pipeline_for,
    satdump_pipeline_for_satellite, telemetry_in, FoundFile,
};
use crate::discord::{format_mhz, mhz_text, PassStatus, SatelliteTelemetry, TelemetryText};
use crate::json::opt_pairs;
use crate::orbit::SignalType;
use crate::path::{
    base_name_or_empty, extension_equals, file_name_or_empty, has_extension, join, joined,
    name_extension, parent, parent_of,
};
use crate::text::{
    concat3, contains, debug_quoted, digits, has_text, lemma_has_part, one_pair, opt_text, pairs,
    push_pair, push_pairs, push_text, quoted, sets, texts, three_pairs, two_pairs, unicode_lower,
};
use vstd::prelude::*;

verus! {

/// A recording to decode.
#[derive(Clone, Debug)]
pub struct DecodeTask {
    pub satellite_name: String,
    pub frequency_hz: u64,
    pub signal_type: SignalType,
    pub raw_path: String,
    /// Whether the recording lay there when the task was made.
    pub raw_exists: bool,
    pub session_dir: String,
}

/// What decoding yielded.
#[derive(Clone, Debug)]
pub struct DecodeResult {
    pub image_path: Option<String>,
    pub audio_path: Option<String>,
    pub telemetry_summary: Option<String>,
    pub telemetry: Option<SatelliteTelemetry>,
}

/// What decoding yielded, as plain values.
pub struct ResultText {
    pub image_path: Option<Seq<char>>,
    pub audio_path: Option<Seq<char>>,
    pub telemetry_summary: Option<Seq<char>>,
    pub telemetry: Option<TelemetryText>,
}

impl View for DecodeResult {
    type V = ResultText;

    open spec fn view(&self) -> ResultText {
        ResultText {
            image_path: opt_text(self.image_path),
            audio_path: opt_text(self.audio_path),
            telemetry_summary: opt_text(self.telemetry_summary),
            telemetry: match self.telemetry {
                Some(t) => Some(t@),
                None => None,
            },
        }
    }
}

/// An outside decoder.
#[derive(Clone, Copy, Debug, PartialEq, Eq, Structural)]
pub enum Program {
    NoaaApt,
    Satdump,
}

impl Program {
    /// The name of the command.
    pub open spec fn command_text(self) -> Seq<char> {
        match self {
            Program::NoaaApt => "noaa-apt"@,
            Program::Satdump => "satdump"@,
        }
    }

    /// The name of the command.
    pub fn command(&self) -> (r: &'static str)
        ensures
            r@ == self.command_text(),
    {
        match self {
            Program::NoaaApt => "noaa-apt",
            Program::Satdump => "satdump",
        }
    }
}

/// What a run of an outside decoder left behind.
#[derive(Clone, Debug)]
pub struct RunReport {
    /// The program could be started.
    pub started: bool,
    /// It ended with success.
    pub success: bool,
    /// How it ended, in words.
    pub status: String,
    pub stdout: String,
    pub stderr: String,
    /// The file `image.png` lies in the directory of the session.
    pub product_exists: bool,
    /// What lies below the directory of the session.
    pub files: Vec<FoundFile>,
    /// The contents of `telemetry.json` there.
    pub telemetry: Option<String>,
}

impl RunReport {
    /// The best image.
    pub open spec fn image(self) -> Option<Seq<char>> {
        best_image(self.files@)
    }

    /// The telemetry items.
    pub open spec fn items(self) -> Option<Seq<(Seq<char>, Seq<char>)>> {
        telemetry_in(opt_text(self.telemetry))
    }

    /// The end of what the program wrote.
    pub open spec fn snippet(self) -> Seq<char> {
        error_snippet(self.stderr@, self.stdout@)
    }
}

/// A Morse recording made audible and visible.
#[derive(Clone, Debug)]
pub struct Rendering {
    pub audio_path: String,
    /// The spectrogram.
    pub image_path: String,
    /// The text that was read.
    pub morse: Option<String>,
}

/// What is to be done next.
#[derive(Clone, Debug)]
pub enum DecodeStep {
    /// Find out whether a program is installed.
    Look { program: Program },
    /// Find out whether the recording is there, and make the directory of the session.
    Prepare,
    /// Run a program; `attempt` counts from zero.
    Run { program: Program, args: Vec<String>, attempt: usize },
    /// Make a Morse recording audible and visible.
    Render,
    /// Nothing: this is the result.
    Done { result: DecodeResult },
}

/// What is to be done next, as plain values.
pub enum StepText {
    Look { program: Program },
    Prepare,
    Run { program: Program, args: Seq<Seq<char>>, attempt: int },
    Render,
    Done { result: ResultText },
}

impl View for DecodeStep {
    type V = StepText;

    open spec fn view(&self) -> StepText {
        match self {
            DecodeStep::Look { program } => StepText::Look { program: *program },
            DecodeStep::Prepare => StepText::Prepare,
            DecodeStep::Run { program, args, attempt } => StepText::Run {
                program: *program,
                args: texts(args@),
                attempt: *attempt as int,
            },
            DecodeStep::Render => StepText::Render,
            DecodeStep::Done { result } => StepText::Done { result: result@ },
        }
    }
}

/// What decoding a CubeSat recording came to.
#[derive(Clone, Debug)]
pub enum CubeSatDecodeOutcome {
    Image(String),
    Telemetry(Vec<(String, String)>),
    PacketsSaved,
    WeakSignal,
    DecoderNotInstalled,
    NoPipelineConfigured,
    Error(String),
}

/// What decoding a CubeSat recording came to, as plain values.
pub enum OutcomeText {
    Image(Seq<char>),
    Telemetry(Seq<(Seq<char>, Seq<char>)>),
    PacketsSaved,
    WeakSignal,
    DecoderNotInstalled,
    NoPipelineConfigured,
    Error(Seq<char>),
}

impl View for CubeSatDecodeOutcome {
    type V = OutcomeText;

    open spec fn view(&self) -> OutcomeText {
        match self {
            CubeSatDecodeOutcome::Image(p) => OutcomeText::Image(p@),
            CubeSatDecodeOutcome::Telemetry(items) => OutcomeText::Telemetry(pairs(items@)),
            CubeSatDecodeOutcome::PacketsSaved => OutcomeText::PacketsSaved,
            CubeSatDecodeOutcome::WeakSignal => OutcomeText::WeakSignal,
            CubeSatDecodeOutcome::DecoderNotInstalled => OutcomeText::DecoderNotInstalled,
            CubeSatDecodeOutcome::NoPipelineConfigured => OutcomeText::NoPipelineConfigured,
            CubeSatDecodeOutcome::Error(e) => OutcomeText::Error(e@),
        }
    }
}

impl DecodeTask {
    /// The recording itself, where it is there and is a WAV file.
    pub open spec fn audio(self) -> Option<Seq<char>> {
        if self.raw_exists && name_extension(self.raw_path@) == Some("wav"@) {
            Some(self.raw_path@)
        } else {
            None
        }
    }

    /// The image that noaa-apt writes.
    pub open spec fn png(self) -> Seq<char> {
        joined(self.session_dir@, "image.png"@)
    }

    /// The satdump pipeline for the satellite.
    pub open spec fn pipeline(self) -> Option<Seq<char>> {
        pipeline_for(unicode_lower(self.satellite_name@))
    }

    /// The satdump pipeline for the satellite, or the word for any.
    pub open spec fn pipeline_or_any(self) -> Seq<char> {
        match self.pipeline() {
            Some(p) => p,
            None => "cubesat"@,
        }
    }

    /// The recording itself, where it is there and is a WAV file.
    fn audio_path(&self) -> (r: Option<String>)
        ensures
            opt_text(r) == self.audio(),
    {
        if self.raw_exists && extension_equals(self.raw_path.as_str(), "wav") {
            Some(self.raw_path.as_str().to_owned())
        } else {
            None
        }
    }

    /// The image that noaa-apt writes.
    fn png_path(&self) -> (r: String)
        ensures
            r@ == self.png(),
    {
        join(self.session_dir.as_str(), "image.png")
    }

    /// The satdump pipeline for the satellite, or the word for any.
    fn pipeline_name(&self) -> (r: &'static str)
        ensures
            r@ == self.pipeline_or_any(),
    {
        match satdump_pipeline_for_satellite(self.satellite_name.as_str()) {
            Some(p) => p,
            None => "cubesat",
        }
    }
}

/// A result with a summary and telemetry.
pub open spec fn result_of(
    image: Option<Seq<char>>,
    audio: Option<Seq<char>>,
    summary: Seq<char>,
    lines: Option<Seq<char>>,
    housekeeping: Seq<(Seq<char>, Seq<char>)>,
    status: PassStatus,
) -> ResultText {
    ResultText {
        image_path: image,
        audio_path: audio,
        telemetry_summary: Some(summary),
        telemetry: Some(
            TelemetryText { snr_db: None, lines_or_packets: lines, housekeeping, status },
        ),
    }
}

/// A result with a summary and telemetry.
fn make_result(
    image: Option<String>,
    audio: Option<String>,
    summary: String,
    lines: Option<&str>,
    housekeeping: Vec<(String, String)>,
    status: PassStatus,
) -> (r: DecodeResult)
    ensures
        r@ == result_of(
            opt_text(image),
            opt_text(audio),
            summary@,
            opt_str(lines),
            pairs(housekeeping@),
            status,
        ),
{
    DecodeResult {
        image_path: image,
        audio_path: audio,
        telemetry_summary: Some(summary),
        telemetry: Some(
            SatelliteTelemetry {
                snr_db: None,
                lines_or_packets: match lines {
                    Some(s) => Some(s.to_owned()),
                    None => None,
                },
                housekeeping,
                status,
            },
        ),
    }
}

/// What a failure leaves: no image, and the reason.
pub open spec fn failed_result(
    audio: Option<Seq<char>>,
    label: Seq<char>,
    reason: Seq<char>,
) -> ResultText {
    result_of(
        None,
        audio,
        "生データ保存済み ("@ + label + reason + ")"@,
        None,
        seq![("エラー詳細"@, reason)],
        PassStatus::DecodeError,
    )
}

/// What a failure leaves.
fn make_failed(audio: Option<String>, label: &str, reason: &str) -> (r: DecodeResult)
    ensures
        r@ == failed_result(opt_text(audio), label@, reason@),
{
    let mut summary: String = "生データ保存済み (".to_owned();
    summary.append(label);
    summary.append(reason);
    summary.append(")");
    make_result(
        None,
        audio,
        summary,
        None,
        one_pair("エラー詳細", reason),
        PassStatus::DecodeError,
    )
}

// ---- NOAA APT ----

/// The recording is kept: noaa-apt is not installed.
pub open spec fn apt_missing(task: DecodeTask) -> ResultText {
    result_of(
        None,
        task.audio(),
        task.satellite_name@ + " APT 音声WAV保全完了 (noaa-apt未導入)"@,
        Some("WAV 音声ファイル保存完了"@),
        seq![
            ("生データ保存"@, "保全完了 (WAV 60kSPS)"@),
            ("デコード状況"@, "noaa-apt CLI 未導入 (手動解析待機)"@),
            ("保存ファイル"@, base_name_or_empty(task.raw_path@)),
        ],
        PassStatus::RawPreserved,
    )
}

/// The image was decoded.
pub open spec fn apt_done(task: DecodeTask) -> ResultText {
    result_of(
        Some(task.png()),
        task.audio(),
        task.satellite_name@ + " APT 画像デコード成功"@,
        Some("APT スキャン同期完了 (Ch A/B 可視光・赤外線)"@),
        seq![
            ("復調方式"@, "AM 2.4kHz Subcarrier (WAV 60kSPS)"@),
            ("チャンネル"@, "Ch A (可視光) / Ch B (赤外線)"@),
            ("生成画像"@, base_name_or_empty(task.png())),
        ],
        PassStatus::ImageDecoded,
    )
}

/// There is no image, for the given reason.
pub open spec fn apt_failed(task: DecodeTask, reason: Seq<char>) -> ResultText {
    result_of(
        None,
        task.audio(),
        "生データ保存済み (デコード未完: "@ + reason + ")"@,
        Some("画像未生成 (電波微弱または同期未確立)"@),
        seq![("生データ保存"@, "保全完了 (WAV 60kSPS)"@), ("エラー詳細"@, reason)],
        PassStatus::WeakSignal,
    )
}

/// Why a run of noaa-apt yielded no image; nothing where it yielded one.
pub open spec fn apt_error(task: DecodeTask, run: RunReport) -> Option<Seq<char>> {
    if !run.started {
        Some(
            "noaa-apt コマンドの実行に失敗しました。noaa-apt CLI がインストールされているか確認してください"@,
        )
    } else if !run.success {
        Some("noaa-apt が異常終了しました (status "@ + run.status@ + "): "@ + run.snippet())
    } else if !run.product_exists {
        Some("デコード画像が生成されませんでした: "@ + debug_quoted(task.png()))
    } else {
        None
    }
}

/// The recording is kept: noaa-apt is not installed.
pub fn apt_missing_result(task: &DecodeTask) -> (r: DecodeResult)
    ensures
        r@ == apt_missing(*task),
{
    let mut summary: String = task.satellite_name.as_str().to_owned();
    summary.append(" APT 音声WAV保全完了 (noaa-apt未導入)");
    make_result(
        None,
        task.audio_path(),
        summary,
        Some("WAV 音声ファイル保存完了"),
        three_pairs(
            "生データ保存",
            "保全完了 (WAV 60kSPS)",
            "デコード状況",
            "noaa-apt CLI 未導入 (手動解析待機)",
            "保存ファイル",
            file_name_or_empty(task.raw_path.as_str()),
        ),
        PassStatus::RawPreserved,
    )
}

/// The image was decoded.
pub fn apt_done_result(task: &DecodeTask) -> (r: DecodeResult)
    ensures
        r@ == apt_done(*task),
{
    let png: String = task.png_path();
    let mut summary: String = task.satellite_name.as_str().to_owned();
    summary.append(" APT 画像デコード成功");
    let housekeeping: Vec<(String, String)> = three_pairs(
        "復調方式",
        "AM 2.4kHz Subcarrier (WAV 60kSPS)",
        "チャンネル",
        "Ch A (可視光) / Ch B (赤外線)",
        "生成画像",
        file_name_or_empty(png.as_str()),
    );
    make_result(
        Some(png),
        task.audio_path(),
        summary,
        Some("APT スキャン同期完了 (Ch A/B 可視光・赤外線)"),
        housekeeping,
        PassStatus::ImageDecoded,
    )
}

/// There is no image, for the given reason.
pub fn apt_failed_result(task: &DecodeTask, reason: &str) -> (r: DecodeResult)
    ensures
        r@ == apt_failed(*task, reason@),
{
    make_result(
        None,
        task.audio_path(),
        concat3("生データ保存済み (デコード未完: ", reason, ")"),
        Some("画像未生成 (電波微弱または同期未確立)"),
        two_pairs("生データ保存", "保全完了 (WAV 60kSPS)", "エラー詳細", reason),
        PassStatus::WeakSignal,
    )
}

// ---- Meteor-M LRPT ----

/// The pipelines for Meteor-M, in the order in which they are tried.
pub open spec fn meteor_pipeline(attempt: int) -> Seq<char> {
    if attempt == 0 {
        "meteor_m2-x_lrpt_80k"@
    } else {
        "meteor_m2-x_lrpt"@
    }
}

/// The recording is kept: satdump is not installed.
pub open spec fn lrpt_missing(task: DecodeTask) -> ResultText {
    result_of(
        None,
        None,
        task.satellite_name@ + " LRPT 生IQ保全完了 (SatDump未導入)"@,
        Some("生IQ (240kSPS cu8) 保存完了"@),
        seq![
            ("生データ保存"@, "保全完了 (生IQ cu8 240kSPS)"@),
            ("デコード状況"@, "SatDump CLI 未導入 (手動解析待機)"@),
            ("保存ファイル"@, base_name_or_empty(task.raw_path@)),
        ],
        PassStatus::RawPreserved,
    )
}

/// The items, where there are any.
pub open spec fn items_or_none(items: Option<Seq<(Seq<char>, Seq<char>)>>) -> Seq<
    (Seq<char>, Seq<char>),
> {
    match items {
        Some(v) => v,
        None => Seq::empty(),
    }
}

/// An image was decoded.
pub open spec fn lrpt_done(
    task: DecodeTask,
    image: Seq<char>,
    items: Option<Seq<(Seq<char>, Seq<char>)>>,
) -> ResultText {
    result_of(
        Some(image),
        None,
        task.satellite_name@ + " LRPT デジタル画像復調成功"@,
        Some("MSU-MR デジタル走査線 復元完了"@),
        seq![
            ("変調方式"@, "72k/80k OQPSK"@),
            ("フレーム同期"@, "CADU ロック完了"@),
            ("復調画像"@, base_name_or_empty(image)),
        ] + items_or_none(items),
        PassStatus::ImageDecoded,
    )
}

/// No image was decoded: telemetry, frames or nothing is left.
pub open spec fn lrpt_no_image(
    task: DecodeTask,
    items: Option<Seq<(Seq<char>, Seq<char>)>>,
    cadu: bool,
) -> ResultText {
    match items {
        Some(v) => result_of(
            None,
            None,
            task.satellite_name@ + " テレメトリパケット復元完了 (画像未生成)"@,
            Some("テレメトリデータ抽出完了"@),
            seq![("変調方式"@, "72k/80k OQPSK"@), ("テレメトリ"@, "telemetry.json 抽出完了"@)]
                + v,
            PassStatus::TelemetryDecoded,
        ),
        None => if cadu {
            result_of(
                None,
                None,
                task.satellite_name@ + " 有効走査線なし (CADUパケット保存完了)"@,
                Some("0 lines (CADU部分取得 / 走査線未生成)"@),
                seq![
                    ("フレーム同期"@, "不完全 (電波微弱)"@),
                    ("生データ保全"@, "生IQおよびCADUパケット保存済み"@),
                ],
                PassStatus::WeakSignal,
            )
        } else {
            result_of(
                None,
                None,
                task.satellite_name@ + " 有効走査線なし (電波微弱または未送信)"@,
                Some("0 lines (電波微弱)"@),
                seq![
                    ("復調状況"@, "有効走査線 0 行 (同期未確立)"@),
                    ("生データ保全"@, "生IQデータ保存済み"@),
                ],
                PassStatus::WeakSignal,
            )
        },
    }
}

/// The recording is kept: satdump is not installed.
pub fn lrpt_missing_result(task: &DecodeTask) -> (r: DecodeResult)
    ensures
        r@ == lrpt_missing(*task),
{
    let mut summary: String = task.satellite_name.as_str().to_owned();
    summary.append(" LRPT 生IQ保全完了 (SatDump未導入)");
    make_result(
        None,
        None,
        summary,
        Some("生IQ (240kSPS cu8) 保存完了"),
        three_pairs(
            "生データ保存",
            "保全完了 (生IQ cu8 240kSPS)",
            "デコード状況",
            "SatDump CLI 未導入 (手動解析待機)",
            "保存ファイル",
            file_name_or_empty(task.raw_path.as_str()),
        ),
        PassStatus::RawPreserved,
    )
}

/// An image was decoded.
pub fn lrpt_done_result(
    task: &DecodeTask,
    image: String,
    items: &Option<Vec<(String, String)>>,
) -> (r: DecodeResult)
    ensures
        r@ == lrpt_done(*task, image@, opt_pairs(*items)),
{
    let mut housekeeping: Vec<(String, String)> = three_pairs(
        "変調方式",
        "72k/80k OQPSK",
        "フレーム同期",
        "CADU ロック完了",
        "復調画像",
        file_name_or_empty(image.as_str()),
    );
    let ghost head = pairs(housekeeping@);
    assert(head + Seq::<(Seq<char>, Seq<char>)>::empty() =~= head);
    if let Some(v) = items {
        push_pairs(&mut housekeeping, v);
    }
    let mut summary: String = task.satellite_name.as_str().to_owned();
    summary.append(" LRPT デジタル画像復調成功");
    make_result(
        Some(image),
        None,
        summary,
        Some("MSU-MR デジタル走査線 復元完了"),
        housekeeping,
        PassStatus::ImageDecoded,
    )
}

/// No image was decoded: telemetry, frames or nothing is left.
pub fn lrpt_no_image_result(
    task: &DecodeTask,
    items: &Option<Vec<(String, String)>>,
    cadu: bool,
) -> (r: DecodeResult)
    ensures
        r@ == lrpt_no_image(*task, opt_pairs(*items), cadu),
{
    let mut summary: String = task.satellite_name.as_str().to_owned();
    match items {
        Some(v) => {
            let mut housekeeping: Vec<(String, String)> = two_pairs(
                "変調方式",
                "72k/80k OQPSK",
                "テレメトリ",
                "telemetry.json 抽出完了",
            );
            push_pairs(&mut housekeeping, v);
            summary.append(" テレメトリパケット復元完了 (画像未生成)");
            make_result(
                None,
                None,
                summary,
                Some("テレメトリデータ抽出完了"),
                housekeeping,
                PassStatus::TelemetryDecoded,
            )
        },
        None => if cadu {
            summary.append(" 有効走査線なし (CADUパケット保存完了)");
            make_result(
                None,
                None,
                summary,
                Some("0 lines (CADU部分取得 / 走査線未生成)"),
                two_pairs(
                    "フレーム同期",
                    "不完全 (電波微弱)",
                    "生データ保全",
                    "生IQおよびCADUパケット保存済み",
                ),
                PassStatus::WeakSignal,
            )
        } else {
            summary.append(" 有効走査線なし (電波微弱または未送信)");
            make_result(
                None,
                None,
                summary,
                Some("0 lines (電波微弱)"),
                two_pairs(
                    "復調状況",
                    "有効走査線 0 行 (同期未確立)",
                    "生データ保全",
                    "生IQデータ保存済み",
                ),
                PassStatus::WeakSignal,
            )
        },
    }
}

// ---- CubeSats ----

/// satdump says that it found nothing, or ended with success.
pub open spec fn weak_signal(run: RunReport) -> bool {
    ||| has_text(run.stdout@, "0 packets"@)
    ||| has_text(run.stdout@, "Lines  : 0"@)
    ||| has_text(run.stdout@, "Skipping"@)
    ||| has_text(run.stderr@, "Skipping"@)
    ||| run.success
}

/// What a run of satdump on a CubeSat recording came to: the best product that it left.
pub open spec fn cubesat_outcome(run: RunReport) -> OutcomeText {
    match run.image() {
        Some(image) => OutcomeText::Image(image),
        None => match run.items() {
            Some(items) => OutcomeText::Telemetry(items),
            None => if has_cadu(run.files@) {
                OutcomeText::PacketsSaved
            } else if weak_signal(run) {
                OutcomeText::WeakSignal
            } else {
                OutcomeText::Error(run.snippet())
            },
        },
    }
}

/// The result for what decoding a CubeSat recording came to. `items` is the telemetry beside an
/// image.
pub open spec fn cubesat_result(
    task: DecodeTask,
    outcome: OutcomeText,
    items: Option<Seq<(Seq<char>, Seq<char>)>>,
) -> ResultText {
    let name = task.satellite_name@;
    let named = "CubeSat "@ + name;
    match outcome {
        OutcomeText::Image(image) => result_of(
            Some(image),
            task.audio(),
            named + " 画像復元完了"@,
            Some("画像パケット復元完了"@),
            seq![
                ("プロダクト"@, "カメラ画像復元完了"@),
                ("画像形式"@, base_name_or_empty(image)),
            ] + items_or_none(items),
            PassStatus::ImageDecoded,
        ),
        OutcomeText::Telemetry(v) => result_of(
            None,
            task.audio(),
            named + " テレメトリ復調成功"@,
            Some("テレメトリパケット取得完了"@),
            seq![("復調方式"@, "SatDump ["@ + task.pipeline_or_any() + "]"@)] + v,
            PassStatus::TelemetryDecoded,
        ),
        OutcomeText::PacketsSaved => result_of(
            None,
            task.audio(),
            named + " パケットフレーム取得完了"@,
            Some("パケットフレーム保全完了"@),
            seq![
                ("復調方式"@, "SatDump ["@ + task.pipeline_or_any() + "]"@),
                ("パケット保全"@, "CADU/フレーム保存完了"@),
            ],
            PassStatus::TelemetryDecoded,
        ),
        OutcomeText::WeakSignal => result_of(
            None,
            task.audio(),
            named + " パケット未検出 (電波微弱または未送信)"@,
            Some("0 packets (同期未確立)"@),
            seq![
                ("復調方式"@, "SatDump ["@ + task.pipeline_or_any() + "]"@),
                ("パケット検出"@, "0 パケット (信号微弱または未送信)"@),
                ("生データ"@, "保全完了 (生IQ保存)"@),
            ],
            PassStatus::WeakSignal,
        ),
        OutcomeText::DecoderNotInstalled => result_of(
            None,
            task.audio(),
            named + " ("@ + task.signal_type.display() + ") 生データ保存完了 (SatDump未導入)"@,
            Some("生録音データ保存完了 (外部デコーダ未導入)"@),
            seq![
                ("生データ"@, "保全完了 (ディスク保存)"@),
                ("デコード状況"@, "SatDump CLI 未導入のためスキップ (手動解析可能)"@),
                ("保存ファイル"@, base_name_or_empty(task.raw_path@)),
            ],
            PassStatus::RawPreserved,
        ),
        OutcomeText::NoPipelineConfigured => result_of(
            None,
            task.audio(),
            named + " ("@ + task.signal_type.display() + ") 生データ保存完了 (専用デコーダ未定義)"@,
            Some("生録音データ保存完了"@),
            seq![
                ("生データ"@, "保全完了 (ディスク保存)"@),
                ("デコード状況"@, name + " 用パイプライン未設定 (生IQ保全)"@),
                ("保存ファイル"@, base_name_or_empty(task.raw_path@)),
            ],
            PassStatus::RawPreserved,
        ),
        OutcomeText::Error(e) => result_of(
            None,
            task.audio(),
            named + " 生データ保存済み (デコードエラー: "@ + e + ")"@,
            None,
            seq![("生データ"@, "保全完了 (ディスク保存)"@), ("エラー詳細"@, e)],
            PassStatus::DecodeError,
        ),
    }
}

/// The result for what decoding a CubeSat recording came to. `items` is the telemetry beside an
/// image.
pub fn make_cubesat_result(
    task: &DecodeTask,
    outcome: CubeSatDecodeOutcome,
    items: &Option<Vec<(String, String)>>,
) -> (r: DecodeResult)
    ensures
        r@ == cubesat_result(*task, outcome@, opt_pairs(*items)),
{
    let audio: Option<String> = task.audio_path();
    let mut summary: String = "CubeSat ".to_owned();
    summary.append(task.satellite_name.as_str());
    match outcome {
        CubeSatDecodeOutcome::Image(image) => {
            let mut housekeeping: Vec<(String, String)> = two_pairs(
                "プロダクト",
                "カメラ画像復元完了",
                "画像形式",
                file_name_or_empty(image.as_str()),
            );
            let ghost head = pairs(housekeeping@);
            assert(head + Seq::<(Seq<char>, Seq<char>)>::empty() =~= head);
            if let Some(v) = items {
                push_pairs(&mut housekeeping, v);
            }
            summary.append(" 画像復元完了");
            make_result(
                Some(image),
                audio,
                summary,
                Some("画像パケット復元完了"),
                housekeeping,
                PassStatus::ImageDecoded,
            )
        },
        CubeSatDecodeOutcome::Telemetry(v) => {
            let method: String = concat3("SatDump [", task.pipeline_name(), "]");
            let mut housekeeping: Vec<(String, String)> = one_pair("復調方式", method.as_str());
            push_pairs(&mut housekeeping, &v);
            summary.append(" テレメトリ復調成功");
            make_result(
                None,
                audio,
                summary,
                Some("テレメトリパケット取得完了"),
                housekeeping,
                PassStatus::TelemetryDecoded,
            )
        },
        CubeSatDecodeOutcome::PacketsSaved => {
            let method: String = concat3("SatDump [", task.pipeline_name(), "]");
            summary.append(" パケットフレーム取得完了");
            make_result(
                None,
                audio,
                summary,
                Some("パケットフレーム保全完了"),
                two_pairs(
                    "復調方式",
                    method.as_str(),
                    "パケット保全",
                    "CADU/フレーム保存完了",
                ),
                PassStatus::TelemetryDecoded,
            )
        },
        CubeSatDecodeOutcome::WeakSignal => {
            let method: String = concat3("SatDump [", task.pipeline_name(), "]");
            summary.append(" パケット未検出 (電波微弱または未送信)");
            make_result(
                None,
                audio,
                summary,
                Some("0 packets (同期未確立)"),
                three_pairs(
                    "復調方式",
                    method.as_str(),
                    "パケット検出",
                    "0 パケット (信号微弱または未送信)",
                    "生データ",
                    "保全完了 (生IQ保存)",
                ),
                PassStatus::WeakSignal,
            )
        },
        CubeSatDecodeOutcome::DecoderNotInstalled => {
            summary.append(" (");
            summary.append(task.signal_type.name());
            summary.append(") 生データ保存完了 (SatDump未導入)");
            make_result(
                None,
                audio,
                summary,
                Some("生録音データ保存完了 (外部デコーダ未導入)"),
                three_pairs(
                    "生データ",
                    "保全完了 (ディスク保存)",
                    "デコード状況",
                    "SatDump CLI 未導入のためスキップ (手動解析可能)",
                    "保存ファイル",
                    file_name_or_empty(task.raw_path.as_str()),
                ),
                PassStatus::RawPreserved,
            )
        },
        CubeSatDecodeOutcome::NoPipelineConfigured => {
            summary.append(" (");
            summary.append(task.signal_type.name());
            summary.append(") 生データ保存完了 (専用デコーダ未定義)");
            let mut state: String = task.satellite_name.as_str().to_owned();
            state.append(" 用パイプライン未設定 (生IQ保全)");
            make_result(
                None,
                audio,
                summary,
                Some("生録音データ保存完了"),
                three_pairs(
                    "生データ",
                    "保全完了 (ディスク保存)",
                    "デコード状況",
                    state.as_str(),
                    "保存ファイル",
                    file_name_or_empty(task.raw_path.as_str()),
                ),
                PassStatus::RawPreserved,
            )
        },
        CubeSatDecodeOutcome::Error(e) => {
            summary.append(" 生データ保存済み (デコードエラー: ");
            summary.append(e.as_str());
            summary.append(")");
            make_result(
                None,
                audio,
                summary,
                None,
                two_pairs(
                    "生データ",
                    "保全完了 (ディスク保存)",
                    "エラー詳細",
                    e.as_str(),
                ),
                PassStatus::DecodeError,
            )
        },
    }
}

// ---- ISS SSTV ----

/// The recording is kept: satdump is not installed.
pub open spec fn iss_missing(task: DecodeTask) -> ResultText {
    result_of(
        None,
        task.audio(),
        "ISS SSTV 音声録音完了 (SatDump未導入)"@,
        Some("FM音声WAV保全完了 (外部デコーダ未導入)"@),
        seq![
            ("送信元"@, "国際宇宙ステーション (ARISS)"@),
            ("録音状態"@, "WAV保全完了 (Discord添付)"@),
            ("デコード状況"@, "SatDump 未導入 (手動復調可能)"@),
        ],
        PassStatus::RawPreserved,
    )
}

/// What a run of satdump on the recording came to.
pub open spec fn iss_result(task: DecodeTask, image: Option<Seq<char>>) -> ResultText {
    match image {
        Some(p) => result_of(
            Some(p),
            task.audio(),
            "ISS SSTV 宇宙画像デコード完了"@,
            Some("Robot36 カラースキャン同期完了"@),
            seq![
                ("送信元"@, "国際宇宙ステーション (ARISS)"@),
                ("復調モード"@, "SSTV Robot36"@),
                ("生成画像"@, base_name_or_empty(p)),
            ],
            PassStatus::ImageDecoded,
        ),
        None => result_of(
            None,
            task.audio(),
            "ISS SSTV 音声録音完了 (画像未検出)"@,
            Some("FM音声録音完了 (画像信号なし/無音)"@),
            seq![
                ("送信元"@, "国際宇宙ステーション (ARISS)"@),
                ("録音状態"@, "WAV保全完了 (画像信号未検出)"@),
            ],
            PassStatus::RawPreserved,
        ),
    }
}

/// The recording is kept: satdump is not installed.
pub fn iss_missing_result(task: &DecodeTask) -> (r: DecodeResult)
    ensures
        r@ == iss_missing(*task),
{
    make_result(
        None,
        task.audio_path(),
        "ISS SSTV 音声録音完了 (SatDump未導入)".to_owned(),
        Some("FM音声WAV保全完了 (外部デコーダ未導入)"),
        three_pairs(
            "送信元",
            "国際宇宙ステーション (ARISS)",
            "録音状態",
            "WAV保全完了 (Discord添付)",
            "デコード状況",
            "SatDump 未導入 (手動復調可能)",
        ),
        PassStatus::RawPreserved,
    )
}

/// What a run of satdump on the recording came to.
pub fn make_iss_result(task: &DecodeTask, image: Option<String>) -> (r: DecodeResult)
    ensures
        r@ == iss_result(*task, opt_text(image)),
{
    match image {
        Some(p) => {
            let housekeeping: Vec<(String, String)> = three_pairs(
                "送信元",
                "国際宇宙ステーション (ARISS)",
                "復調モード",
                "SSTV Robot36",
                "生成画像",
                file_name_or_empty(p.as_str()),
            );
            make_result(
                Some(p),
                task.audio_path(),
                "ISS SSTV 宇宙画像デコード完了".to_owned(),
                Some("Robot36 カラースキャン同期完了"),
                housekeeping,
                PassStatus::ImageDecoded,
            )
        },
        None => make_result(
            None,
            task.audio_path(),
            "ISS SSTV 音声録音完了 (画像未検出)".to_owned(),
            Some("FM音声録音完了 (画像信号なし/無音)"),
            two_pairs(
                "送信元",
                "国際宇宙ステーション (ARISS)",
                "録音状態",
                "WAV保全完了 (画像信号未検出)",
            ),
            PassStatus::RawPreserved,
        ),
    }
}

// ---- FM repeaters and Morse beacons ----

/// How a repeater is reached.
pub open spec fn repeater_access(task: DecodeTask) -> Seq<char> {
    if has_text(task.satellite_name@, "SO-50"@) {
        "Uplink: 145.850MHz (CTCSS 67.0Hz) / Downlink: 436.795MHz FM"@
    } else {
        "Downlink: "@ + mhz_text(task.frequency_hz as nat) + " MHz FM"@
    }
}

/// The voice of a repeater was recorded.
pub open spec fn repeater_result(task: DecodeTask) -> ResultText {
    result_of(
        None,
        task.audio(),
        task.satellite_name@ + " FM 音声中継（交信音声）録音完了"@,
        Some("FM 音声復調完了 (WAV 添付)"@),
        seq![
            ("中継方式"@, "FM ボイストランスポンダー"@),
            ("アクセス仕様"@, repeater_access(task)),
            ("音声データ"@, "Discord添付 / ローカル保全完了"@),
        ],
        PassStatus::AudioRecorded,
    )
}

/// A Morse beacon was made audible and visible.
pub open spec fn morse_result(
    task: DecodeTask,
    audio: Seq<char>,
    image: Seq<char>,
    morse: Option<Seq<char>>,
) -> ResultText {
    result_of(
        Some(image),
        Some(audio),
        "CubeSat "@ + task.satellite_name@ + " CW モールス音声復調完了"@,
        Some("CW 音声復調完了 (WAV・スペクトログラム添付)"@),
        seq![
            ("復調方式"@, "CW 包絡線検波 (BFO 再合成)"@),
            ("音声データ"@, base_name_or_empty(audio)),
            ("スペクトログラム"@, base_name_or_empty(image)),
        ] + (match morse {
            Some(text) => seq![("モールス解読"@, text)],
            None => Seq::empty(),
        }),
        PassStatus::AudioRecorded,
    )
}

/// The voice of a repeater was recorded.
pub fn make_repeater_result(task: &DecodeTask) -> (r: DecodeResult)
    ensures
        r@ == repeater_result(*task),
{
    let access: String = if contains(task.satellite_name.as_str(), "SO-50") {
        "Uplink: 145.850MHz (CTCSS 67.0Hz) / Downlink: 436.795MHz FM".to_owned()
    } else {
        concat3("Downlink: ", format_mhz(task.frequency_hz).as_str(), " MHz FM")
    };
    let mut summary: String = task.satellite_name.as_str().to_owned();
    summary.append(" FM 音声中継（交信音声）録音完了");
    make_result(
        None,
        task.audio_path(),
        summary,
        Some("FM 音声復調完了 (WAV 添付)"),
        three_pairs(
            "中継方式",
            "FM ボイストランスポンダー",
            "アクセス仕様",
            access.as_str(),
            "音声データ",
            "Discord添付 / ローカル保全完了",
        ),
        PassStatus::AudioRecorded,
    )
}

/// A Morse beacon was made audible and visible.
pub fn make_morse_result(task: &DecodeTask, rendering: Rendering) -> (r: DecodeResult)
    ensures
        r@ == morse_result(
            *task,
            rendering.audio_path@,
            rendering.image_path@,
            opt_text(rendering.morse),
        ),
{
    let mut housekeeping: Vec<(String, String)> = three_pairs(
        "復調方式",
        "CW 包絡線検波 (BFO 再合成)",
        "音声データ",
        file_name_or_empty(rendering.audio_path.as_str()),
        "スペクトログラム",
        file_name_or_empty(rendering.image_path.as_str()),
    );
    let ghost head = pairs(housekeeping@);
    assert(head + Seq::<(Seq<char>, Seq<char>)>::empty() =~= head);
    if let Some(text) = &rendering.morse {
        push_pair(&mut housekeeping, "モールス解読", text.as_str());
        assert(pairs(housekeeping@) =~= head + seq![("モールス解読"@, text@)]);
    }
    make_result(
        Some(rendering.image_path),
        Some(rendering.audio_path),
        concat3("CubeSat ", task.satellite_name.as_str(), " CW モールス音声復調完了"),
        Some("CW 音声復調完了 (WAV・スペクトログラム添付)"),
        housekeeping,
        PassStatus::AudioRecorded,
    )
}

// ---- the steps ----

/// The satellite's recording is decoded as a CubeSat's is: by the pipeline for its name.
pub open spec fn by_pipeline(signal: SignalType) -> bool {
    signal == SignalType::CubeSatSsdv || signal == SignalType::CubeSatSstv || signal
        == SignalType::CubeSatTelemetry || signal == SignalType::MorseCw || signal
        == SignalType::AprsPacket
}

/// The result where the recording is missing or the directory cannot be made.
pub open spec fn refused_result(task: DecodeTask, reason: Seq<char>) -> ResultText {
    match task.signal_type {
        SignalType::Apt => apt_failed(task, reason),
        SignalType::Lrpt => failed_result(None, "デコードエラー: "@, reason),
        SignalType::IssSstv => failed_result(task.audio(), "デコードエラー: "@, reason),
        _ => failed_result(task.audio(), "エラー: "@, reason),
    }
}

/// What is said where the recording is missing.
pub open spec fn no_input_reason(task: DecodeTask) -> Seq<char> {
    (match task.signal_type {
        SignalType::Apt | SignalType::IssSstv => "入力WAVファイルが存在しません: "@,
        SignalType::Lrpt => "入力生IQファイルが存在しません: "@,
        _ => "入力生データファイルが存在しません: "@,
    }) + debug_quoted(task.raw_path@)
}

/// What is said where the directory of the session cannot be made.
pub open spec fn no_directory_reason(task: DecodeTask) -> Seq<char> {
    match task.signal_type {
        SignalType::Apt => "ディレクトリ作成失敗: "@ + debug_quoted(
            match parent_of(task.png()) {
                Some(dir) => dir,
                None => task.session_dir@,
            },
        ),
        _ => "出力ディレクトリ作成失敗: "@ + debug_quoted(task.session_dir@),
    }
}

/// The first step of a task.
pub open spec fn first_step(task: DecodeTask) -> StepText {
    match task.signal_type {
        SignalType::Apt => StepText::Look { program: Program::NoaaApt },
        SignalType::Lrpt | SignalType::IssSstv => StepText::Look { program: Program::Satdump },
        SignalType::FmRepeater => StepText::Done { result: repeater_result(task) },
        SignalType::MorseCw => StepText::Render,
        _ => StepText::Prepare,
    }
}

/// The step after it is known whether the program is installed.
pub open spec fn step_after_look(task: DecodeTask, installed: bool) -> StepText {
    match task.signal_type {
        SignalType::Apt => if installed {
            StepText::Prepare
        } else {
            StepText::Done { result: apt_missing(task) }
        },
        SignalType::Lrpt => if installed {
            StepText::Prepare
        } else {
            StepText::Done { result: lrpt_missing(task) }
        },
        SignalType::IssSstv => if installed {
            StepText::Prepare
        } else {
            StepText::Done { result: iss_missing(task) }
        },
        SignalType::FmRepeater => StepText::Done { result: repeater_result(task) },
        _ => if !installed {
            StepText::Done {
                result: cubesat_result(task, OutcomeText::DecoderNotInstalled, None),
            }
        } else {
            match task.pipeline() {
                None => StepText::Done {
                    result: cubesat_result(task, OutcomeText::NoPipelineConfigured, None),
                },
                Some(pipeline) => StepText::Run {
                    program: Program::Satdump,
                    args: cubesat_args(pipeline, task.raw_path@, task.session_dir@, 240000),
                    attempt: 0,
                },
            }
        },
    }
}

/// The step after the recording was looked for and the directory of the session made.
pub open spec fn step_after_prepare(
    task: DecodeTask,
    input_exists: bool,
    directory_made: bool,
) -> StepText {
    if task.signal_type == SignalType::FmRepeater {
        StepText::Done { result: repeater_result(task) }
    } else if !input_exists {
        StepText::Done { result: refused_result(task, no_input_reason(task)) }
    } else if !directory_made {
        StepText::Done { result: refused_result(task, no_directory_reason(task)) }
    } else {
        match task.signal_type {
            SignalType::Apt => StepText::Run {
                program: Program::NoaaApt,
                args: noaa_apt_args(task.raw_path@, task.png()),
                attempt: 0,
            },
            SignalType::Lrpt => StepText::Run {
                program: Program::Satdump,
                args: lrpt_args(meteor_pipeline(0), task.raw_path@, task.session_dir@),
                attempt: 0,
            },
            SignalType::IssSstv => StepText::Run {
                program: Program::Satdump,
                args: seq!["iss_sstv"@, "audio"@, task.raw_path@, task.session_dir@],
                attempt: 0,
            },
            _ => StepText::Look { program: Program::Satdump },
        }
    }
}

/// The step after a run. A Meteor-M recording without an image is tried with a second pipeline;
/// for the ISS an image counts even where the program could not be started.
pub open spec fn step_after_run(task: DecodeTask, attempt: int, run: RunReport) -> StepText {
    match task.signal_type {
        SignalType::Apt => StepText::Done {
            result: match apt_error(task, run) {
                Some(reason) => apt_failed(task, reason),
                None => apt_done(task),
            },
        },
        SignalType::Lrpt => if !run.started {
            StepText::Done {
                result: failed_result(
                    None,
                    "デコードエラー: "@,
                    "satdump コマンドの実行に失敗しました。satdump CLI が導入されているか確認してください"@,
                ),
            }
        } else if attempt == 0 && !(run.success && run.image() is Some) {
            StepText::Run {
                program: Program::Satdump,
                args: lrpt_args(meteor_pipeline(1), task.raw_path@, task.session_dir@),
                attempt: 1,
            }
        } else {
            StepText::Done {
                result: match run.image() {
                    Some(image) => lrpt_done(task, image, run.items()),
                    None => lrpt_no_image(task, run.items(), has_cadu(run.files@)),
                },
            }
        },
        SignalType::IssSstv => StepText::Done { result: iss_result(task, run.image()) },
        SignalType::FmRepeater => StepText::Done { result: repeater_result(task) },
        _ => StepText::Done {
            result: if run.started {
                cubesat_result(task, cubesat_outcome(run), run.items())
            } else {
                failed_result(
                    task.audio(),
                    "エラー: "@,
                    "satdump コマンドの実行に失敗しました"@,
                )
            },
        },
    }
}

/// The step after a Morse recording was made audible and visible, or could not be.
pub open spec fn step_after_render(
    task: DecodeTask,
    rendering: Option<(Seq<char>, Seq<char>, Option<Seq<char>>)>,
) -> StepText {
    match rendering {
        Some(x) => StepText::Done { result: morse_result(task, x.0, x.1, x.2) },
        None => StepText::Prepare,
    }
}

/// What a rendering holds.
pub open spec fn rendering_text(r: Option<Rendering>) -> Option<
    (Seq<char>, Seq<char>, Option<Seq<char>>),
> {
    match r {
        Some(x) => Some((x.audio_path@, x.image_path@, opt_text(x.morse))),
        None => None,
    }
}

/// Reads what a run of an outside decoder came to.
pub struct Decoder;

impl Decoder {
    /// Whether noaa-apt decoded the image, or why not.
    pub fn decode_apt(task: &DecodeTask, run: &RunReport) -> (r: Result<(), String>)
        ensures
            r is Ok == apt_error(*task, *run) is None,
            r is Err ==> Some(r->Err_0@) == apt_error(*task, *run),
    {
        if !run.started {
            return Err(
                "noaa-apt コマンドの実行に失敗しました。noaa-apt CLI がインストールされているか確認してください".to_owned(),
            );
        }
        if !run.success {
            let mut e: String = "noaa-apt が異常終了しました (status ".to_owned();
            e.append(run.status.as_str());
            e.append("): ");
            e.append(extract_error_snippet(run.stderr.as_str(), run.stdout.as_str()).as_str());
            return Err(e);
        }
        if !run.product_exists {
            let mut e: String = "デコード画像が生成されませんでした: ".to_owned();
            e.append(quoted(task.png_path().as_str()).as_str());
            return Err(e);
        }
        Ok(())
    }

    /// What satdump made of a Meteor-M recording: an image, no image, or nothing yet, where the
    /// second pipeline is to be tried.
    pub fn decode_meteor_lrpt(attempt: usize, run: &RunReport) -> (r: Option<Option<String>>)
        requires
            run.started,
        ensures
            r is None == (attempt == 0 && !(run.success && run.image() is Some)),
            r is Some ==> opt_text(r->0) == run.image(),
    {
        let image: Option<String> = find_best_image_in_dir(run.files.as_slice());
        if attempt == 0 && !(run.success && image.is_some()) {
            None
        } else {
            Some(image)
        }
    }

    /// What satdump made of a CubeSat recording.
    pub fn decode_cubesat(run: &RunReport) -> (r: CubeSatDecodeOutcome)
        ensures
            r@ == cubesat_outcome(*run),
    {
        if let Some(image) = find_best_image_in_dir(run.files.as_slice()) {
            return CubeSatDecodeOutcome::Image(image);
        }
        if let Some(items) = extract_telemetry_from_dir(&run.telemetry) {
            return CubeSatDecodeOutcome::Telemetry(items);
        }
        if has_cadu_files(run.files.as_slice()) {
            return CubeSatDecodeOutcome::PacketsSaved;
        }
        let weak: bool = contains(run.stdout.as_str(), "0 packets") || contains(
            run.stdout.as_str(),
            "Lines  : 0",
        ) || contains(run.stdout.as_str(), "Skipping") || contains(
            run.stderr.as_str(),
            "Skipping",
        ) || run.success;
        if weak {
            CubeSatDecodeOutcome::WeakSignal
        } else {
            CubeSatDecodeOutcome::Error(
                extract_error_snippet(run.stderr.as_str(), run.stdout.as_str()),
            )
        }
    }

    /// The image that satdump made of a recording of the ISS.
    pub fn decode_iss_sstv(run: &RunReport) -> (r: Option<String>)
        ensures
            opt_text(r) == run.image(),
    {
        find_best_image_in_dir(run.files.as_slice())
    }
}

/// Decodes recordings, step by step.
pub struct DecoderEngine;

impl DecoderEngine {
    /// The first step of a task.
    pub fn decode(task: &DecodeTask) -> (r: DecodeStep)
        ensures
            r@ == first_step(*task),
    {
        match task.signal_type {
            SignalType::Apt => DecodeStep::Look { program: Program::NoaaApt },
            SignalType::Lrpt | SignalType::IssSstv => DecodeStep::Look {
                program: Program::Satdump,
            },
            SignalType::FmRepeater => DecodeStep::Done { result: make_repeater_result(task) },
            SignalType::MorseCw => DecodeStep::Render,
            _ => DecodeStep::Prepare,
        }
    }

    /// The step after it is known whether the program is installed.
    pub fn after_look(task: &DecodeTask, installed: bool) -> (r: DecodeStep)
        ensures
            r@ == step_after_look(*task, installed),
    {
        match task.signal_type {
            SignalType::Apt => if installed {
                DecodeStep::Prepare
            } else {
                DecodeStep::Done { result: apt_missing_result(task) }
            },
            SignalType::Lrpt => if installed {
                DecodeStep::Prepare
            } else {
                DecodeStep::Done { result: lrpt_missing_result(task) }
            },
            SignalType::IssSstv => if installed {
                DecodeStep::Prepare
            } else {
                DecodeStep::Done { result: iss_missing_result(task) }
            },
            SignalType::FmRepeater => DecodeStep::Done { result: make_repeater_result(task) },
            _ => {
                if !installed {
                    return DecodeStep::Done {
                        result: make_cubesat_result(
                            task,
                            CubeSatDecodeOutcome::DecoderNotInstalled,
                            &None,
                        ),
                    };
                }
                match satdump_pipeline_for_satellite(task.satellite_name.as_str()) {
                    None => DecodeStep::Done {
                        result: make_cubesat_result(
                            task,
                            CubeSatDecodeOutcome::NoPipelineConfigured,
                            &None,
                        ),
                    },
                    Some(pipeline) => DecodeStep::Run {
                        program: Program::Satdump,
                        args: build_satdump_cubesat_args(
                            pipeline,
                            task.raw_path.as_str(),
                            task.session_dir.as_str(),
                            240000,
                        ),
                        attempt: 0,
                    },
                }
            },
        }
    }

    /// The result where the recording is missing or the directory cannot be made.
    pub fn refuse(task: &DecodeTask, reason: &str) -> (r: DecodeResult)
        ensures
            r@ == refused_result(*task, reason@),
    {
        match task.signal_type {
            SignalType::Apt => apt_failed_result(task, reason),
            SignalType::Lrpt => make_failed(None, "デコードエラー: ", reason),
            SignalType::IssSstv => make_failed(task.audio_path(), "デコードエラー: ", reason),
            _ => make_failed(task.audio_path(), "エラー: ", reason),
        }
    }

    /// The step after the recording was looked for and the directory of the session made.
    pub fn after_prepare(task: &DecodeTask, input_exists: bool, directory_made: bool) -> (r:
        DecodeStep)
        ensures
            r@ == step_after_prepare(*task, input_exists, directory_made),
    {
        if let SignalType::FmRepeater = task.signal_type {
            return DecodeStep::Done { result: make_repeater_result(task) };
        }
        if !input_exists {
            let mut reason: String = (match task.signal_type {
                SignalType::Apt | SignalType::IssSstv => "入力WAVファイルが存在しません: ",
                SignalType::Lrpt => "入力生IQファイルが存在しません: ",
                _ => "入力生データファイルが存在しません: ",
            }).to_owned();
            reason.append(quoted(task.raw_path.as_str()).as_str());
            return DecodeStep::Done { result: Self::refuse(task, reason.as_str()) };
        }
        if !directory_made {
            let png: String = task.png_path();
            let reason: String = match task.signal_type {
                SignalType::Apt => {
                    let mut reason: String = "ディレクトリ作成失敗: ".to_owned();
                    let dir: &str = match parent(png.as_str()) {
                        Some(dir) => dir,
                        None => task.session_dir.as_str(),
                    };
                    reason.append(quoted(dir).as_str());
                    reason
                },
                _ => {
                    let mut reason: String = "出力ディレクトリ作成失敗: ".to_owned();
                    reason.append(quoted(task.session_dir.as_str()).as_str());
                    reason
                },
            };
            return DecodeStep::Done { result: Self::refuse(task, reason.as_str()) };
        }
        match task.signal_type {
            SignalType::Apt => DecodeStep::Run {
                program: Program::NoaaApt,
                args: build_noaa_apt_args(task.raw_path.as_str(), task.png_path().as_str()),
                attempt: 0,
            },
            SignalType::Lrpt => DecodeStep::Run {
                program: Program::Satdump,
                args: build_satdump_lrpt_args_with_pipeline(
                    "meteor_m2-x_lrpt_80k",
                    task.raw_path.as_str(),
                    task.session_dir.as_str(),
                ),
                attempt: 0,
            },
            SignalType::IssSstv => {
                let mut args: Vec<String> = Vec::new();
                push_text(&mut args, "iss_sstv");
                push_text(&mut args, "audio");
                push_text(&mut args, task.raw_path.as_str());
                push_text(&mut args, task.session_dir.as_str());
                assert(texts(args@) =~= seq![
                    "iss_sstv"@,
                    "audio"@,
                    task.raw_path@,
                    task.session_dir@,
                ]);
                DecodeStep::Run { program: Program::Satdump, args, attempt: 0 }
            },
            _ => DecodeStep::Look { program: Program::Satdump },
        }
    }

    /// The step after a run.
    pub fn after_run(task: &DecodeTask, attempt: usize, run: &RunReport) -> (r: DecodeStep)
        ensures
            r@ == step_after_run(*task, attempt as int, *run),
    {
        match task.signal_type {
            SignalType::Apt => match Decoder::decode_apt(task, run) {
                Ok(()) => DecodeStep::Done { result: apt_done_result(task) },
                Err(reason) => DecodeStep::Done {
                    result: apt_failed_result(task, reason.as_str()),
                },
            },
            SignalType::Lrpt => {
                if !run.started {
                    return DecodeStep::Done {
                        result: make_failed(
                            None,
                            "デコードエラー: ",
                            "satdump コマンドの実行に失敗しました。satdump CLI が導入されているか確認してください",
                        ),
                    };
                }
                match Decoder::decode_meteor_lrpt(attempt, run) {
                    None => DecodeStep::Run {
                        program: Program::Satdump,
                        args: build_satdump_lrpt_args_with_pipeline(
                            "meteor_m2-x_lrpt",
                            task.raw_path.as_str(),
                            task.session_dir.as_str(),
                        ),
                        attempt: 1,
                    },
                    Some(found) => {
                        let items: Option<Vec<(String, String)>> = extract_telemetry_from_dir(
                            &run.telemetry,
                        );
                        match found {
                            Some(image) => DecodeStep::Done {
                                result: lrpt_done_result(task, image, &items),
                            },
                            None => DecodeStep::Done {
                                result: lrpt_no_image_result(
                                    task,
                                    &items,
                                    has_cadu_files(run.files.as_slice()),
                                ),
                            },
                        }
                    },
                }
            },
            SignalType::IssSstv => DecodeStep::Done {
                result: make_iss_result(task, Decoder::decode_iss_sstv(run)),
            },
            SignalType::FmRepeater => DecodeStep::Done { result: make_repeater_result(task) },
            _ => {
                if !run.started {
                    return DecodeStep::Done {
                        result: make_failed(
                            task.audio_path(),
                            "エラー: ",
                            "satdump コマンドの実行に失敗しました",
                        ),
                    };
                }
                let items: Option<Vec<(String, String)>> = extract_telemetry_from_dir(
                    &run.telemetry,
                );
                DecodeStep::Done {
                    result: make_cubesat_result(task, Decoder::decode_cubesat(run), &items),
                }
            },
        }
    }

    /// The step after a Morse recording was made audible and visible, or could not be.
    pub fn after_render(task: &DecodeTask, rendering: Option<Rendering>) -> (r: DecodeStep)
        ensures
            r@ == step_after_render(*task, rendering_text(rendering)),
    {
        match rendering {
            Some(x) => DecodeStep::Done { result: make_morse_result(task, x) },
            None => DecodeStep::Prepare,
        }
    }
}

// ---- laws ----

/// A result claims no more than there is: it says that an image was decoded only where it names
/// one, and it names one only where it says so or shows a spectrogram with recorded audio.
pub open spec fn truthful(result: ResultText) -> bool {
    &&& result.telemetry is Some
    &&& result.telemetry->0.status == PassStatus::ImageDecoded ==> result.image_path is Some
    &&& result.image_path is Some ==> result.telemetry->0.status == PassStatus::ImageDecoded || (
    result.telemetry->0.status == PassStatus::AudioRecorded && result.audio_path is Some)
}

/// The step is no result, or a result that claims no more than there is.
pub open spec fn truthful_step(step: StepText) -> bool {
    step matches StepText::Done { result } ==> truthful(result)
}

/// No result of decoding claims more than there is, whatever the outside programs did.
pub proof fn law_no_false_success(
    task: DecodeTask,
    installed: bool,
    input_exists: bool,
    directory_made: bool,
    attempt: int,
    run: RunReport,
    rendering: Option<(Seq<char>, Seq<char>, Option<Seq<char>>)>,
)
    ensures
        truthful_step(first_step(task)),
        truthful_step(step_after_look(task, installed)),
        truthful_step(step_after_prepare(task, input_exists, directory_made)),
        truthful_step(step_after_run(task, attempt, run)),
        truthful_step(step_after_render(task, rendering)),
{
}

/// A decoder that is not installed costs no recording: the result says that the recording is kept.
pub proof fn law_missing_decoder_keeps_the_recording(task: DecodeTask)
    requires
        task.signal_type != SignalType::FmRepeater,
    ensures
        step_after_look(task, false) matches StepText::Done { result } && result.image_path is None
            && result.telemetry->0.status == PassStatus::RawPreserved,
{
}

/// How many steps a task can still take.
pub open spec fn steps_left(task: DecodeTask, step: StepText) -> nat {
    match step {
        StepText::Done { .. } => 0,
        StepText::Run { attempt, .. } => if attempt == 0 {
            2
        } else {
            1
        },
        StepText::Look { .. } => if by_pipeline(task.signal_type) {
            3
        } else {
            4
        },
        StepText::Prepare => if by_pipeline(task.signal_type) {
            4
        } else {
            3
        },
        StepText::Render => 5,
    }
}

/// Decoding comes to an end: each answer brings the task nearer to its result, whatever it is.
pub proof fn law_decoding_ends(
    task: DecodeTask,
    program: Program,
    args: Seq<Seq<char>>,
    attempt: int,
    installed: bool,
    input_exists: bool,
    directory_made: bool,
    run: RunReport,
    rendering: Option<(Seq<char>, Seq<char>, Option<Seq<char>>)>,
)
    requires
        0 <= attempt,
    ensures
        steps_left(task, first_step(task)) <= 5,
        steps_left(task, step_after_look(task, installed)) < steps_left(
            task,
            StepText::Look { program },
        ),
        steps_left(task, step_after_prepare(task, input_exists, directory_made)) < steps_left(
            task,
            StepText::Prepare,
        ),
        steps_left(task, step_after_run(task, attempt, run)) < steps_left(
            task,
            StepText::Run { program, args, attempt },
        ),
        task.signal_type == SignalType::MorseCw ==> steps_left(
            task,
            step_after_render(task, rendering),
        ) < steps_left(task, StepText::Render),
{
}

/// Each recording goes to the decoder for its signal: the task looks for the program that it will
/// run, and runs it on the recording, once the recording is there and the directory made.
pub proof fn law_recordings_go_to_their_decoder(task: DecodeTask)
    ensures
        task.signal_type == SignalType::Apt ==> {
            &&& first_step(task) == (StepText::Look { program: Program::NoaaApt })
            &&& step_after_look(task, true) is Prepare
            &&& step_after_prepare(task, true, true) matches StepText::Run {
                program,
                args,
                attempt,
            } && program == Program::NoaaApt && attempt == 0 && args[0] == task.raw_path@ && sets(
                args.skip(1),
                "-o"@,
                joined(task.session_dir@, "image.png"@),
            )
        },
        task.signal_type == SignalType::Lrpt ==> {
            &&& first_step(task) == (StepText::Look { program: Program::Satdump })
            &&& step_after_look(task, true) is Prepare
            &&& step_after_prepare(task, true, true) matches StepText::Run {
                program,
                args,
                attempt,
            } && program == Program::Satdump && attempt == 0 && args.take(4)
                == seq!["meteor_m2-x_lrpt_80k"@, "baseband"@, task.raw_path@, task.session_dir@]
        },
        task.signal_type == SignalType::IssSstv ==> {
            &&& first_step(task) == (StepText::Look { program: Program::Satdump })
            &&& step_after_look(task, true) is Prepare
            &&& step_after_prepare(task, true, true) == (StepText::Run {
                program: Program::Satdump,
                args: seq!["iss_sstv"@, "audio"@, task.raw_path@, task.session_dir@],
                attempt: 0,
            })
        },
        by_pipeline(task.signal_type) ==> {
            &&& first_step(task) == if task.signal_type == SignalType::MorseCw {
                StepText::Render
            } else {
                StepText::Prepare
            }
            &&& step_after_prepare(task, true, true) == (StepText::Look {
                program: Program::Satdump,
            })
            &&& task.pipeline() is Some ==> (step_after_look(task, true) matches StepText::Run {
                program,
                args,
                attempt,
            } && program == Program::Satdump && attempt == 0 && args[0] == task.pipeline()->0
                && args[2] == task.raw_path@ && args[3] == task.session_dir@ && (!has_extension(
                task.raw_path@,
                "wav"@,
            ) ==> args[1] == "baseband"@ && sets(args.skip(4), "--samplerate"@, digits(240_000))
                && sets(args.skip(4), "--baseband_format"@, "cu8"@)) && (has_extension(
                task.raw_path@,
                "wav"@,
            ) ==> args[1] == "audio"@ && args.len() == 4))
            &&& task.pipeline() is None ==> (step_after_look(task, true) matches StepText::Done {
                result,
            } && result.telemetry->0.status == PassStatus::RawPreserved)
        },
        task.signal_type == SignalType::FmRepeater ==> (first_step(task) matches StepText::Done {
            result,
        } && result.telemetry->0.status == PassStatus::AudioRecorded),
{
    law_noaa_apt_writes_the_image(task.raw_path@, task.png());
    law_lrpt_options_have_their_values(meteor_pipeline(0), task.raw_path@, task.session_dir@);
    if task.pipeline() is Some {
        law_cubesat_options_have_their_values(
            task.pipeline()->0,
            task.raw_path@,
            task.session_dir@,
            240_000,
        );
    }
}

/// An image that was decoded is never passed over: where a run left one, the result names it and
/// says that an image was decoded.
pub proof fn law_images_are_reported(task: DecodeTask, attempt: int, run: RunReport)
    requires
        run.started,
        run.success,
        0 <= attempt <= 1,
    ensures
        task.signal_type == SignalType::Apt && run.product_exists ==> (step_after_run(
            task,
            attempt,
            run,
        ) matches StepText::Done { result } && result.image_path == Some(
            joined(task.session_dir@, "image.png"@),
        ) && result.telemetry->0.status == PassStatus::ImageDecoded),
        task.signal_type != SignalType::Apt && task.signal_type != SignalType::FmRepeater
            && best_image(run.files@) is Some ==> (step_after_run(task, attempt, run) matches
            StepText::Done { result } && result.image_path == best_image(run.files@)
            && result.telemetry->0.status == PassStatus::ImageDecoded),
{
}

/// Without an image the result says what else there is: telemetry or packets count as telemetry,
/// a run that found nothing as a weak signal, and a run that failed as an error.
pub proof fn law_without_an_image_the_rest_is_reported(
    task: DecodeTask,
    attempt: int,
    run: RunReport,
)
    requires
        best_image(run.files@) is None,
        run.started,
        attempt == 1 || task.signal_type != SignalType::Lrpt,
    ensures
        step_after_run(task, attempt, run) matches StepText::Done { result } && {
            let status = result.telemetry->0.status;
            let items = telemetry_in(opt_text(run.telemetry));
            &&& task.signal_type != SignalType::Apt ==> result.image_path is None
            &&& task.signal_type == SignalType::Apt && !(run.success && run.product_exists)
                ==> result.image_path is None && status == PassStatus::WeakSignal
            &&& task.signal_type == SignalType::IssSstv ==> status == PassStatus::RawPreserved
            &&& task.signal_type == SignalType::Lrpt ==> status == if items is Some {
                PassStatus::TelemetryDecoded
            } else {
                PassStatus::WeakSignal
            }
            &&& by_pipeline(task.signal_type) ==> status == if items is Some || has_cadu(
                run.files@,
            ) {
                PassStatus::TelemetryDecoded
            } else if run.success || has_text(run.stdout@, "0 packets"@) || has_text(
                run.stdout@,
                "Lines  : 0"@,
            ) || has_text(run.stdout@, "Skipping"@) || has_text(run.stderr@, "Skipping"@) {
                PassStatus::WeakSignal
            } else {
                PassStatus::DecodeError
            }
        },
{
}

/// The telemetry that was found is in the result, item by item, behind what the station says of
/// the run itself.
pub proof fn law_telemetry_is_reported(task: DecodeTask, run: RunReport)
    requires
        run.started,
        telemetry_in(opt_text(run.telemetry)) is Some,
        task.signal_type == SignalType::Lrpt || by_pipeline(task.signal_type),
    ensures
        step_after_run(task, 1, run) matches StepText::Done { result }
            && telemetry_in(opt_text(run.telemetry))->0.is_suffix_of(
            result.telemetry->0.housekeeping,
        ),
{
    let items = telemetry_in(opt_text(run.telemetry))->0;
    let step = step_after_run(task, 1, run);
    let all = step->result.telemetry->0.housekeeping;
    assert(all.skip(all.len() - items.len()) =~= items);
    assert(all.subrange(all.len() - items.len(), all.len() as int) =~= items);
}

/// A Meteor-M recording without an image gets a second chance: the same recording is run through
/// the other pipeline, and only then is there a result.
pub proof fn law_meteor_is_tried_twice(task: DecodeTask, run: RunReport)
    requires
        task.signal_type == SignalType::Lrpt,
        run.started,
        !run.success || best_image(run.files@) is None,
    ensures
        step_after_run(task, 0, run) matches StepText::Run { program, args, attempt } && program
            == Program::Satdump && attempt == 1 && args.take(4) == seq![
            "meteor_m2-x_lrpt"@,
            "baseband"@,
            task.raw_path@,
            task.session_dir@,
        ],
        step_after_run(task, 1, run) is Done,
{
    law_lrpt_options_have_their_values(meteor_pipeline(1), task.raw_path@, task.session_dir@);
}

/// A failure is reported as one: where the recording is missing, the directory cannot be made or
/// the program cannot be started, the result has no image and its details hold a reason, and the
/// recording that is missing is named in it.
pub proof fn law_failures_are_reported(task: DecodeTask, run: RunReport, made: bool)
    requires
        task.signal_type != SignalType::FmRepeater,
    ensures
        step_after_prepare(task, false, made) matches StepText::Done { result }
            && result.image_path is None && has_text(
            result.telemetry->0.housekeeping.last().1,
            debug_quoted(task.raw_path@),
        ) && (result.telemetry->0.status == PassStatus::DecodeError || (task.signal_type
            == SignalType::Apt && result.telemetry->0.status == PassStatus::WeakSignal)),
        step_after_prepare(task, true, false) matches StepText::Done { result }
            && result.image_path is None && (result.telemetry->0.status == PassStatus::DecodeError
            || (task.signal_type == SignalType::Apt && result.telemetry->0.status
            == PassStatus::WeakSignal)),
        !run.started && task.signal_type != SignalType::IssSstv ==> (step_after_run(
            task,
            0,
            run,
        ) matches StepText::Done { result } && result.image_path is None && (
        result.telemetry->0.status == PassStatus::DecodeError || (task.signal_type
            == SignalType::Apt && result.telemetry->0.status == PassStatus::WeakSignal))),
{
    let r = step_after_prepare(task, false, made)->result;
    let shown = r.telemetry->0.housekeeping.last().1;
    let quote = debug_quoted(task.raw_path@);
    assert(shown == no_input_reason(task));
    let head = shown.take(shown.len() - quote.len());
    assert(shown =~= head + quote + Seq::<char>::empty());
    lemma_has_part(head, quote, Seq::empty());
}

/// The sound of a pass goes with its result: a recording that is a WAV file is handed on, whatever
/// came of decoding it, and nothing else is handed on as one. Meteor-M recordings have no sound.
pub proof fn law_recorded_audio_is_handed_on(
    task: DecodeTask,
    installed: bool,
    input_exists: bool,
    directory_made: bool,
    attempt: int,
    run: RunReport,
)
    requires
        task.signal_type != SignalType::Lrpt,
    ensures
        ({
            let sound = if task.raw_exists && name_extension(task.raw_path@) == Some("wav"@) {
                Some(task.raw_path@)
            } else {
                None
            };
            &&& first_step(task) matches StepText::Done { result } ==> result.audio_path == sound
            &&& step_after_look(task, installed) matches StepText::Done { result }
                ==> result.audio_path == sound
            &&& step_after_prepare(task, input_exists, directory_made) matches StepText::Done {
                result,
            } ==> result.audio_path == sound
            &&& step_after_run(task, attempt, run) matches StepText::Done { result }
                ==> result.audio_path == sound
        }),
{
}

/// A Morse beacon that was made audible is reported with its sound, its spectrogram and the text
/// that was read; one that could not be is decoded as any CubeSat is.
pub proof fn law_morse_beacons_are_heard(
    task: DecodeTask,
    audio: Seq<char>,
    image: Seq<char>,
    text: Seq<char>,
)
    ensures
        step_after_render(task, Some((audio, image, Some(text)))) matches StepText::Done { result }
            && result.audio_path == Some(audio) && result.image_path == Some(image)
            && result.telemetry->0.status == PassStatus::AudioRecorded
            && result.telemetry->0.housekeeping.last().1 == text,
        step_after_render(task, Some((audio, image, None))) matches StepText::Done { result }
            && result.audio_path == Some(audio) && result.image_path == Some(image)
            && result.telemetry->0.status == PassStatus::AudioRecorded,
        step_after_render(task, None) is Prepare,
{
}

/// A failed run is explained: the details end with the reason, which holds how noaa-apt ended and
/// the end of what it wrote, or the end of what satdump wrote.
pub proof fn law_failed_runs_are_explained(task: DecodeTask, run: RunReport)
    requires
        run.started,
        !run.success,
    ensures
        task.signal_type == SignalType::Apt ==> (step_after_run(task, 0, run) matches
            StepText::Done { result } && has_text(
            result.telemetry->0.housekeeping.last().1,
            run.status@,
        ) && error_snippet(run.stderr@, run.stdout@).is_suffix_of(
            result.telemetry->0.housekeeping.last().1,
        )),
        by_pipeline(task.signal_type) ==> (step_after_run(task, 0, run) matches StepText::Done {
            result,
        } && (result.telemetry->0.status == PassStatus::DecodeError
            ==> result.telemetry->0.housekeeping.last().1 == error_snippet(
            run.stderr@,
            run.stdout@,
        ))),
{
    if task.signal_type == SignalType::Apt {
        let said = error_snippet(run.stderr@, run.stdout@);
        let a = "noaa-apt が異常終了しました (status "@;
        let reason = a + run.status@ + "): "@ + said;
        assert(reason =~= a + run.status@ + ("): "@ + said));
        lemma_has_part(a, run.status@, "): "@ + said);
        assert(reason.subrange(reason.len() - said.len(), reason.len() as int) =~= said);
        assert(apt_error(task, run) == Some(reason));
    }
}

/// A summary names its satellite, but for the station, which is named as such.
pub proof fn law_summaries_name_the_satellite(
    task: DecodeTask,
    image: Seq<char>,
    audio: Seq<char>,
    items: Option<Seq<(Seq<char>, Seq<char>)>>,
    outcome: OutcomeText,
    cadu: bool,
)
    ensures
        has_text(apt_done(task).telemetry_summary->0, task.satellite_name@),
        has_text(apt_missing(task).telemetry_summary->0, task.satellite_name@),
        has_text(lrpt_done(task, image, items).telemetry_summary->0, task.satellite_name@),
        has_text(lrpt_missing(task).telemetry_summary->0, task.satellite_name@),
        has_text(lrpt_no_image(task, items, cadu).telemetry_summary->0, task.satellite_name@),
        has_text(repeater_result(task).telemetry_summary->0, task.satellite_name@),
        has_text(
            morse_result(task, audio, image, None).telemetry_summary->0,
            task.satellite_name@,
        ),
        has_text(cubesat_result(task, outcome, items).telemetry_summary->0, task.satellite_name@),
        has_text(iss_missing(task).telemetry_summary->0, "ISS"@),
        has_text(iss_result(task, Some(image)).telemetry_summary->0, "ISS"@),
        has_text(iss_result(task, None).telemetry_summary->0, "ISS"@),
{
    let name = task.satellite_name@;
    lemma_name_first(name, " APT 画像デコード成功"@);
    lemma_name_first(name, " APT 音声WAV保全完了 (noaa-apt未導入)"@);
    lemma_name_first(name, " LRPT デジタル画像復調成功"@);
    lemma_name_first(name, " LRPT 生IQ保全完了 (SatDump未導入)"@);
    lemma_name_first(name, " テレメトリパケット復元完了 (画像未生成)"@);
    lemma_name_first(name, " 有効走査線なし (CADUパケット保存完了)"@);
    lemma_name_first(name, " 有効走査線なし (電波微弱または未送信)"@);
    lemma_name_first(name, " FM 音声中継（交信音声）録音完了"@);
    lemma_has_part("CubeSat "@, name, " CW モールス音声復調完了"@);
    lemma_cubesat_summary(task, outcome, items);
    reveal_strlit("ISS");
    reveal_strlit("ISS SSTV 音声録音完了 (SatDump未導入)");
    reveal_strlit("ISS SSTV 宇宙画像デコード完了");
    reveal_strlit("ISS SSTV 音声録音完了 (画像未検出)");
    let a = "ISS SSTV 音声録音完了 (SatDump未導入)"@;
    let b = "ISS SSTV 宇宙画像デコード完了"@;
    let c = "ISS SSTV 音声録音完了 (画像未検出)"@;
    assert(a.subrange(0, 3) =~= "ISS"@);
    assert(crate::text::occurs_at(a, "ISS"@, 0));
    assert(b.subrange(0, 3) =~= "ISS"@);
    assert(crate::text::occurs_at(b, "ISS"@, 0));
    assert(c.subrange(0, 3) =~= "ISS"@);
    assert(crate::text::occurs_at(c, "ISS"@, 0));
}

/// A text that begins with a name holds it.
proof fn lemma_name_first(name: Seq<char>, rest: Seq<char>)
    ensures
        has_text(name + rest, name),
{
    assert(Seq::<char>::empty() + name + rest =~= name + rest);
    lemma_has_part(Seq::empty(), name, rest);
}

/// The summary of a CubeSat recording names the satellite.
proof fn lemma_cubesat_summary(
    task: DecodeTask,
    outcome: OutcomeText,
    items: Option<Seq<(Seq<char>, Seq<char>)>>,
)
    ensures
        has_text(cubesat_result(task, outcome, items).telemetry_summary->0, task.satellite_name@),
{
    let name = task.satellite_name@;
    let named = "CubeSat "@ + name;
    let all = cubesat_result(task, outcome, items).telemetry_summary->0;
    assert(all.subrange(0, named.len() as int) =~= named);
    assert(named + Seq::<char>::empty() =~= named);
    lemma_has_part("CubeSat "@, name, Seq::empty());
    crate::text::lemma_front_has(named, all, name);
}

/// A repeater is announced with the frequency that it is heard on.
pub proof fn law_repeaters_are_heard_on_their_frequency(task: DecodeTask)
    ensures
        !has_text(task.satellite_name@, "SO-50"@) ==> has_text(
            repeater_result(task).telemetry->0.housekeeping[1].1,
            mhz_text(task.frequency_hz as nat) + " MHz"@,
        ),
        repeater_result(task).audio_path == task.audio(),
        repeater_result(task).image_path is None,
{
    let a = "Downlink: "@;
    let mhz = mhz_text(task.frequency_hz as nat);
    reveal_strlit(" MHz FM");
    reveal_strlit(" MHz");
    let b = " MHz FM"@;
    assert(b =~= " MHz"@ + b.skip(4));
    assert(a + mhz + b =~= a + (mhz + " MHz"@) + b.skip(4));
    lemma_has_part(a, mhz + " MHz"@, b.skip(4));
}

/// The plain values of a result, an outcome and a step are those that they hold, and each program
/// is run by its own command.
pub proof fn law_steps_are_what_they_say(
    result: DecodeResult,
    outcome: CubeSatDecodeOutcome,
    step: DecodeStep,
)
    ensures
        result@.image_path == opt_text(result.image_path),
        result@.audio_path == opt_text(result.audio_path),
        result@.telemetry_summary == opt_text(result.telemetry_summary),
        result.telemetry is None <==> result@.telemetry is None,
        result.telemetry matches Some(t) ==> result@.telemetry == Some(t@),
        outcome matches CubeSatDecodeOutcome::Image(p) ==> outcome@ == OutcomeText::Image(p@),
        outcome matches CubeSatDecodeOutcome::Telemetry(v) ==> outcome@ == OutcomeText::Telemetry(
            pairs(v@),
        ),
        outcome is PacketsSaved <==> outcome@ is PacketsSaved,
        outcome is WeakSignal <==> outcome@ is WeakSignal,
        outcome is DecoderNotInstalled <==> outcome@ is DecoderNotInstalled,
        outcome is NoPipelineConfigured <==> outcome@ is NoPipelineConfigured,
        outcome matches CubeSatDecodeOutcome::Error(e) ==> outcome@ == OutcomeText::Error(e@),
        step is Prepare <==> step@ is Prepare,
        step is Render <==> step@ is Render,
        step matches DecodeStep::Look { program } ==> step@ == (StepText::Look { program }),
        step matches DecodeStep::Run { program, args, attempt } ==> step@ == (StepText::Run {
            program,
            args: texts(args@),
            attempt: attempt as int,
        }),
        step matches DecodeStep::Done { result: r } ==> step@ == (StepText::Done { result: r@ }),
        Program::NoaaApt.command_text() == "noaa-apt"@,
        Program::Satdump.command_text() == "satdump"@,
{
}

/// The plain values of a rendering are those that it holds.
pub proof fn law_renderings_are_what_they_say(r: Rendering)
    ensures
        rendering_text(Some(r)) == Some((r.audio_path@, r.image_path@, opt_text(r.morse))),
        rendering_text(None) is None,
{
}

} // verus!
