//! Checks before the station starts: what is there, what is missing, and what to do about it.

use crate::config::{SatellitesConfig, VoicevoxConfig};
use crate::path::{join, joined};
use crate::text::{
    align_left, has_text, left_aligned, lemma_ends_with, lemma_has_across, lemma_has_more,
    lemma_has_part, lemma_left_begins, occurs_at, opt_text, push_text, texts, trim,
    trim_end_matches, trimmed, without_trailing,
};
use vstd::prelude::*;

verus! {

/// How a check went.
#[derive(Clone, Copy, Debug, PartialEq, Eq, Structural)]
pub enum HealthStatus {
    Healthy,
    /// The station works without it.
    Warn,
    /// The station does not work.
    Error,
}

/// The result of a check.
#[derive(Clone, Debug)]
pub struct HealthCheckItem {
    pub name: String,
    pub status: HealthStatus,
    pub message: String,
    pub remedy: Option<String>,
}

/// The result of a check, as plain values.
pub struct ItemText {
    pub name: Seq<char>,
    pub status: HealthStatus,
    pub message: Seq<char>,
    pub remedy: Option<Seq<char>>,
}

impl View for HealthCheckItem {
    type V = ItemText;

    open spec fn view(&self) -> ItemText {
        ItemText {
            name: self.name@,
            status: self.status,
            message: self.message@,
            remedy: opt_text(self.remedy),
        }
    }
}

/// What a list of results holds.
pub open spec fn item_texts(v: Seq<HealthCheckItem>) -> Seq<ItemText> {
    Seq::new(v.len(), |i: int| v[i]@)
}

/// The results of all checks.
#[derive(Clone, Debug)]
pub struct HealthReport {
    pub items: Vec<HealthCheckItem>,
}

/// A check found an error.
pub open spec fn any_error(items: Seq<ItemText>) -> bool {
    exists|i: int| 0 <= i < items.len() && (#[trigger] items[i]).status == HealthStatus::Error
}

/// A check found something to warn of.
pub open spec fn any_warning(items: Seq<ItemText>) -> bool {
    exists|i: int| 0 <= i < items.len() && (#[trigger] items[i]).status == HealthStatus::Warn
}

/// The mark of a status.
pub open spec fn badge(status: HealthStatus) -> Seq<char> {
    match status {
        HealthStatus::Healthy => "[ OK ]"@,
        HealthStatus::Warn => "[WARN]"@,
        HealthStatus::Error => "[FAIL]"@,
    }
}

/// The lines that show one result.
pub open spec fn item_lines(item: ItemText) -> Seq<Seq<char>> {
    seq![left_aligned(badge(item.status), 6) + " "@ + left_aligned(item.name, 24) + ": "@ + item.message]
        + match item.remedy {
        Some(remedy) => seq!["       -> 対処法: "@ + remedy],
        None => Seq::empty(),
    }
}

/// The lines that show the first `n` results.
pub open spec fn items_lines(items: Seq<ItemText>, n: nat) -> Seq<Seq<char>>
    decreases n,
{
    if n == 0 {
        Seq::empty()
    } else {
        items_lines(items, (n - 1) as nat) + item_lines(items[n - 1])
    }
}

/// What follows from the results.
pub open spec fn verdict(items: Seq<ItemText>) -> Seq<char> {
    if any_error(items) {
        "❌ 致命的なエラーが検出されました。起動を中断します。"@
    } else if any_warning(items) {
        "⚠️ 警告がありますが、運用を継続可能です（生データ保存モード）。"@
    } else {
        "✅ すべてのヘルスチェック項目をクリアしました！"@
    }
}

/// A line across the table.
pub open spec fn rule() -> Seq<char> {
    "============================================================"@
}

/// The lines that show a report.
pub open spec fn table_lines(items: Seq<ItemText>) -> Seq<Seq<char>> {
    seq![rule(), "📡 Ground Station Preflight Health Check"@, rule()] + items_lines(
        items,
        items.len(),
    ) + seq![rule(), verdict(items), rule()]
}

impl HealthReport {
    /// Whether the station cannot start: a check found an error.
    pub fn is_fatal(&self) -> (r: bool)
        ensures
            r == any_error(item_texts(self.items@)),
    {
        let mut i: usize = 0;
        while i < self.items.len()
            invariant
                i <= self.items@.len(),
                forall|j: int|
                    0 <= j < i ==> (#[trigger] item_texts(self.items@)[j]).status
                        != HealthStatus::Error,
            decreases self.items@.len() - i,
        {
            if self.items[i].status == HealthStatus::Error {
                assert(item_texts(self.items@)[i as int].status == HealthStatus::Error);
                return true;
            }
            i = i + 1;
        }
        false
    }

    /// Whether a check found something to warn of.
    pub fn has_warning(&self) -> (r: bool)
        ensures
            r == any_warning(item_texts(self.items@)),
    {
        let mut i: usize = 0;
        while i < self.items.len()
            invariant
                i <= self.items@.len(),
                forall|j: int|
                    0 <= j < i ==> (#[trigger] item_texts(self.items@)[j]).status
                        != HealthStatus::Warn,
            decreases self.items@.len() - i,
        {
            if self.items[i].status == HealthStatus::Warn {
                assert(item_texts(self.items@)[i as int].status == HealthStatus::Warn);
                return true;
            }
            i = i + 1;
        }
        false
    }

    /// The lines that show the report.
    pub fn print_table(&self) -> (r: Vec<String>)
        ensures
            texts(r@) == table_lines(item_texts(self.items@)),
    {
        let ghost items = item_texts(self.items@);
        let mut r: Vec<String> = Vec::new();
        push_text(&mut r, "============================================================");
        push_text(&mut r, "📡 Ground Station Preflight Health Check");
        push_text(&mut r, "============================================================");
        let ghost head = texts(r@);
        assert(head =~= seq![rule(), "📡 Ground Station Preflight Health Check"@, rule()]);
        assert(head + items_lines(items, 0) =~= head);
        let mut i: usize = 0;
        while i < self.items.len()
            invariant
                items == item_texts(self.items@),
                i <= self.items@.len(),
                texts(r@) == head + items_lines(items, i as nat),
            decreases self.items@.len() - i,
        {
            let item: &HealthCheckItem = &self.items[i];
            assert(items[i as int] == item@);
            let ghost before = texts(r@);
            let mark: &str = match item.status {
                HealthStatus::Healthy => "[ OK ]",
                HealthStatus::Warn => "[WARN]",
                HealthStatus::Error => "[FAIL]",
            };
            let mut line: String = align_left(mark, 6);
            line.append(" ");
            line.append(align_left(item.name.as_str(), 24).as_str());
            line.append(": ");
            line.append(item.message.as_str());
            push_text(&mut r, line.as_str());
            if let Some(remedy) = &item.remedy {
                let mut hint: String = "       -> 対処法: ".to_owned();
                hint.append(remedy.as_str());
                push_text(&mut r, hint.as_str());
            }
            assert(texts(r@) =~= before + item_lines(item@));
            assert(texts(r@) =~= head + items_lines(items, (i + 1) as nat));
            i = i + 1;
        }
        let ghost body = texts(r@);
        assert(items.len() == self.items@.len());
        push_text(&mut r, "============================================================");
        if self.is_fatal() {
            push_text(&mut r, "❌ 致命的なエラーが検出されました。起動を中断します。");
        } else if self.has_warning() {
            push_text(
                &mut r,
                "⚠️ 警告がありますが、運用を継続可能です（生データ保存モード）。",
            );
        } else {
            push_text(&mut r, "✅ すべてのヘルスチェック項目をクリアしました！");
        }
        push_text(&mut r, "============================================================");
        assert(texts(r@) =~= body + seq![rule(), verdict(items), rule()]);
        r
    }
}

/// A result that needs no remedy.
fn fine(name: &str, message: String) -> (r: HealthCheckItem)
    ensures
        r@ == (ItemText { name: name@, status: HealthStatus::Healthy, message: message@, remedy: None }),
{
    HealthCheckItem { name: name.to_owned(), status: HealthStatus::Healthy, message, remedy: None }
}

/// A result with a remedy.
fn wanting(name: &str, status: HealthStatus, message: String, remedy: &str) -> (r: HealthCheckItem)
    ensures
        r@ == (ItemText { name: name@, status, message: message@, remedy: Some(remedy@) }),
{
    HealthCheckItem { name: name.to_owned(), status, message, remedy: Some(remedy.to_owned()) }
}

/// What a short run of `rtl_test -t` showed. With a receiver it runs on; without one it ends.
#[derive(Clone, Debug)]
pub enum RtlProbe {
    /// The command is not there.
    NoCommand,
    /// It could not be started.
    NotStarted(String),
    /// It could not be waited for.
    WaitFailed(String),
    /// It ended by itself.
    Ended { success: bool },
    /// It ran on.
    StillRunning,
}

/// The result of looking for the receiver.
pub open spec fn rtl_item(probe: RtlProbe) -> ItemText {
    let (status, message, remedy) = match probe {
        RtlProbe::NoCommand => (
            HealthStatus::Error,
            "rtl_test コマンドが見つかりません"@,
            Some("sudo apt install rtl-sdr を実行してください"@),
        ),
        RtlProbe::NotStarted(e) => (
            HealthStatus::Error,
            "rtl_test プロセス起動失敗: "@ + e@,
            Some("sudo apt install rtl-sdr を実行してください"@),
        ),
        RtlProbe::WaitFailed(e) => (
            HealthStatus::Error,
            "rtl_test 実行エラー: "@ + e@,
            Some("rtl-sdr のドライバ設定を確認してください"@),
        ),
        RtlProbe::Ended { success } => if success {
            (HealthStatus::Healthy, "デバイス認識正常"@, None)
        } else {
            (
                HealthStatus::Error,
                "RTL-SDR デバイスが未検出です"@,
                Some(
                    "USB接続を確認するか、WSL2の場合は管理者PowerShellで 'usbipd attach --wsl --busid <BUSID>' を実行してください"@,
                ),
            )
        },
        RtlProbe::StillRunning => (
            HealthStatus::Healthy,
            "正常 (RTL-SDR デバイス検出・動作確認完了)"@,
            None,
        ),
    };
    ItemText { name: "RTL-SDR Device"@, status, message, remedy }
}

/// The result of looking for the receiver.
pub fn probe_rtl_sdr(probe: &RtlProbe) -> (r: HealthCheckItem)
    ensures
        r@ == rtl_item(*probe),
{
    let name: &str = "RTL-SDR Device";
    match probe {
        RtlProbe::NoCommand => wanting(
            name,
            HealthStatus::Error,
            "rtl_test コマンドが見つかりません".to_owned(),
            "sudo apt install rtl-sdr を実行してください",
        ),
        RtlProbe::NotStarted(e) => {
            let mut message: String = "rtl_test プロセス起動失敗: ".to_owned();
            message.append(e.as_str());
            wanting(
                name,
                HealthStatus::Error,
                message,
                "sudo apt install rtl-sdr を実行してください",
            )
        },
        RtlProbe::WaitFailed(e) => {
            let mut message: String = "rtl_test 実行エラー: ".to_owned();
            message.append(e.as_str());
            wanting(
                name,
                HealthStatus::Error,
                message,
                "rtl-sdr のドライバ設定を確認してください",
            )
        },
        RtlProbe::Ended { success } => if *success {
            fine(name, "デバイス認識正常".to_owned())
        } else {
            wanting(
                name,
                HealthStatus::Error,
                "RTL-SDR デバイスが未検出です".to_owned(),
                "USB接続を確認するか、WSL2の場合は管理者PowerShellで 'usbipd attach --wsl --busid <BUSID>' を実行してください",
            )
        },
        RtlProbe::StillRunning => fine(
            name,
            "正常 (RTL-SDR デバイス検出・動作確認完了)".to_owned(),
        ),
    }
}

/// Which commands are installed.
#[derive(Clone, Copy, Debug, PartialEq, Eq, Structural)]
pub struct ToolsFound {
    pub rtl_fm: bool,
    pub rtl_sdr: bool,
    pub satdump: bool,
    pub gr_satellites: bool,
}

/// The result for a tool that records; `missing` says how bad it is that it is not installed.
pub open spec fn recording_tool(
    name: Seq<char>,
    found: bool,
    missing: HealthStatus,
) -> ItemText {
    if found {
        ItemText { name, status: HealthStatus::Healthy, message: "利用可能"@, remedy: None }
    } else {
        ItemText {
            name,
            status: missing,
            message: "コマンド未検出"@,
            remedy: Some("sudo apt install rtl-sdr を実行してください"@),
        }
    }
}

/// The results for the outside tools. Only the tool that records audio is vital. Decoders are
/// looked for only where satellites are followed that need them.
pub open spec fn tool_items(config: SatellitesConfig, found: ToolsFound) -> Seq<ItemText> {
    seq![
        recording_tool("rtl_fm (Receiver)"@, found.rtl_fm, HealthStatus::Error),
        recording_tool("rtl_sdr (IQ Recorder)"@, found.rtl_sdr, HealthStatus::Warn),
    ] + (if config.meteor_on() || config.cubesats.enabled {
        seq![
            if found.satdump {
                ItemText {
                    name: "SatDump (Decoder)"@,
                    status: HealthStatus::Healthy,
                    message: "利用可能 (Meteor/CubeSat自動デコード)"@,
                    remedy: None,
                }
            } else {
                ItemText {
                    name: "SatDump (Decoder)"@,
                    status: HealthStatus::Warn,
                    message:
                        "未検出 (生IQファイルのみ保存され、自動画像デコードはスキップされます)"@,
                    remedy: Some(
                        "SatDump をインストールしてください (公式リポジトリ: https://github.com/SatDump/SatDump)"@,
                    ),
                }
            },
        ]
    } else {
        Seq::empty()
    }) + (if config.cubesats.enabled {
        seq![
            if found.gr_satellites {
                ItemText {
                    name: "gr-satellites (CubeSat)"@,
                    status: HealthStatus::Healthy,
                    message: "利用可能"@,
                    remedy: None,
                }
            } else {
                ItemText {
                    name: "gr-satellites (CubeSat)"@,
                    status: HealthStatus::Warn,
                    message: "未検出 (GNU Radio サテライトデコーダ)"@,
                    remedy: Some("pip install gr-satellites を実行してください"@),
                }
            },
        ]
    } else {
        Seq::empty()
    })
}

/// Adds a result at the end.
fn push_item(v: &mut Vec<HealthCheckItem>, item: HealthCheckItem)
    ensures
        item_texts(final(v)@) == item_texts(old(v)@).push(item@),
{
    let ghost added = item@;
    v.push(item);
    assert(item_texts(v@) =~= item_texts(old(v)@).push(added));
}

/// The result for a tool that records.
fn check_recording(name: &str, found: bool, missing: HealthStatus) -> (r: HealthCheckItem)
    ensures
        r@ == recording_tool(name@, found, missing),
{
    if found {
        fine(name, "利用可能".to_owned())
    } else {
        wanting(
            name,
            missing,
            "コマンド未検出".to_owned(),
            "sudo apt install rtl-sdr を実行してください",
        )
    }
}

/// The results for the outside tools.
pub fn probe_external_tools(config: &SatellitesConfig, found: ToolsFound) -> (r: Vec<
    HealthCheckItem,
>)
    ensures
        item_texts(r@) == tool_items(*config, found),
{
    let mut items: Vec<HealthCheckItem> = Vec::new();
    push_item(
        &mut items,
        check_recording("rtl_fm (Receiver)", found.rtl_fm, HealthStatus::Error),
    );
    push_item(
        &mut items,
        check_recording("rtl_sdr (IQ Recorder)", found.rtl_sdr, HealthStatus::Warn),
    );
    if config.is_meteor_enabled() || config.cubesats.enabled {
        if found.satdump {
            push_item(
                &mut items,
                fine("SatDump (Decoder)", "利用可能 (Meteor/CubeSat自動デコード)".to_owned()),
            );
        } else {
            push_item(
                &mut items,
                wanting(
                    "SatDump (Decoder)",
                    HealthStatus::Warn,
                    "未検出 (生IQファイルのみ保存され、自動画像デコードはスキップされます)".to_owned(),
                    "SatDump をインストールしてください (公式リポジトリ: https://github.com/SatDump/SatDump)",
                ),
            );
        }
    }
    if config.cubesats.enabled {
        if found.gr_satellites {
            push_item(&mut items, fine("gr-satellites (CubeSat)", "利用可能".to_owned()));
        } else {
            push_item(
                &mut items,
                wanting(
                    "gr-satellites (CubeSat)",
                    HealthStatus::Warn,
                    "未検出 (GNU Radio サテライトデコーダ)".to_owned(),
                    "pip install gr-satellites を実行してください",
                ),
            );
        }
    }
    assert(item_texts(items@) =~= tool_items(*config, found));
    items
}

/// What asking the speech engine for its version showed.
#[derive(Clone, Debug)]
pub enum VoicevoxProbe {
    /// No client could be made.
    NoClient(String),
    /// It answered; the version, where it could be read.
    Answered(Option<String>),
    /// It did not answer, or not with success.
    Unreachable,
}

/// Where the speech engine gives its version.
pub fn version_url(config: &VoicevoxConfig) -> (r: String)
    ensures
        r@ == without_trailing(config.host@, '/') + "/version"@,
{
    let mut r: String = trim_end_matches(config.host.as_str(), '/').to_owned();
    r.append("/version");
    r
}

/// The result of looking for the speech engine. It is not looked for where it is switched off.
pub open spec fn voicevox_item(config: VoicevoxConfig, probe: VoicevoxProbe) -> ItemText {
    let (status, message, remedy) = if !config.enabled {
        (HealthStatus::Healthy, "無効化設定中 (ログ通知のみ)"@, None)
    } else {
        match probe {
            VoicevoxProbe::NoClient(e) => (
                HealthStatus::Warn,
                "HTTPクライアント初期化失敗: "@ + e@,
                None,
            ),
            VoicevoxProbe::Answered(version) => (
                HealthStatus::Healthy,
                "正常稼働中 (version "@ + trimmed(
                    match version {
                        Some(v) => v@,
                        None => "不明"@,
                    },
                ) + ")"@,
                None,
            ),
            VoicevoxProbe::Unreachable => (
                HealthStatus::Warn,
                "接続不能 ("@ + config.host@ + " に接続できません。音声通知はスキップされます)"@,
                Some("docker compose up -d voicevox_engine を実行してください"@),
            ),
        }
    };
    ItemText { name: "VOICEVOX Engine"@, status, message, remedy }
}

/// The result of looking for the speech engine.
pub fn probe_voicevox(config: &VoicevoxConfig, probe: &VoicevoxProbe) -> (r: HealthCheckItem)
    ensures
        r@ == voicevox_item(*config, *probe),
{
    let name: &str = "VOICEVOX Engine";
    if !config.enabled {
        return fine(name, "無効化設定中 (ログ通知のみ)".to_owned());
    }
    match probe {
        VoicevoxProbe::NoClient(e) => {
            let mut message: String = "HTTPクライアント初期化失敗: ".to_owned();
            message.append(e.as_str());
            HealthCheckItem {
                name: name.to_owned(),
                status: HealthStatus::Warn,
                message,
                remedy: None,
            }
        },
        VoicevoxProbe::Answered(version) => {
            let shown: &str = match version {
                Some(v) => v.as_str(),
                None => "不明",
            };
            let mut message: String = "正常稼働中 (version ".to_owned();
            message.append(trim(shown));
            message.append(")");
            fine(name, message)
        },
        VoicevoxProbe::Unreachable => {
            let mut message: String = "接続不能 (".to_owned();
            message.append(config.host.as_str());
            message.append(" に接続できません。音声通知はスキップされます)");
            wanting(
                name,
                HealthStatus::Warn,
                message,
                "docker compose up -d voicevox_engine を実行してください",
            )
        },
    }
}

/// What writing a file to the storage showed.
#[derive(Clone, Debug)]
pub enum StorageProbe {
    /// The directory could not be made.
    NoDirectory(String),
    /// The file could not be written.
    NotWritable(String),
    Writable,
}

/// The file that is written to try the storage.
pub open spec fn storage_test_file(dir: Seq<char>) -> Seq<char> {
    joined(dir, ".preflight_test"@)
}

/// The result of trying the storage.
pub open spec fn storage_item(dir: Seq<char>, probe: StorageProbe) -> ItemText {
    let (status, message, remedy) = match probe {
        StorageProbe::NoDirectory(e) => (
            HealthStatus::Error,
            "ディレクトリ作成失敗 ("@ + dir + "): "@ + e@,
            Some("ストレージパスのパーミッションを確認してください"@),
        ),
        StorageProbe::NotWritable(e) => (
            HealthStatus::Error,
            "書き込みテスト失敗 ("@ + storage_test_file(dir) + "): "@ + e@,
            Some("保存先ディレクトリの書き込み権限を確認してください"@),
        ),
        StorageProbe::Writable => (
            HealthStatus::Healthy,
            "書き込み・削除確認完了 ("@ + dir + ")"@,
            None,
        ),
    };
    ItemText { name: "Storage Access"@, status, message, remedy }
}

/// The file that is written to try the storage.
pub fn preflight_file(dir: &str) -> (r: String)
    ensures
        r@ == storage_test_file(dir@),
{
    join(dir, ".preflight_test")
}

/// The result of trying the storage.
pub fn probe_storage(dir: &str, probe: &StorageProbe) -> (r: HealthCheckItem)
    ensures
        r@ == storage_item(dir@, *probe),
{
    let name: &str = "Storage Access";
    match probe {
        StorageProbe::NoDirectory(e) => {
            let mut message: String = "ディレクトリ作成失敗 (".to_owned();
            message.append(dir);
            message.append("): ");
            message.append(e.as_str());
            wanting(
                name,
                HealthStatus::Error,
                message,
                "ストレージパスのパーミッションを確認してください",
            )
        },
        StorageProbe::NotWritable(e) => {
            let mut message: String = "書き込みテスト失敗 (".to_owned();
            message.append(preflight_file(dir).as_str());
            message.append("): ");
            message.append(e.as_str());
            wanting(
                name,
                HealthStatus::Error,
                message,
                "保存先ディレクトリの書き込み権限を確認してください",
            )
        },
        StorageProbe::Writable => {
            let mut message: String = "書き込み・削除確認完了 (".to_owned();
            message.append(dir);
            message.append(")");
            fine(name, message)
        },
    }
}

/// The report of all checks: receiver, tools, speech engine, storage.
pub fn run_preflight_checks(
    rtl: &RtlProbe,
    satellites: &SatellitesConfig,
    tools: ToolsFound,
    voicevox: &VoicevoxConfig,
    speech: &VoicevoxProbe,
    output_dir: &str,
    storage: &StorageProbe,
) -> (r: HealthReport)
    ensures
        item_texts(r.items@) == seq![rtl_item(*rtl)] + tool_items(*satellites, tools) + seq![
            voicevox_item(*voicevox, *speech),
            storage_item(output_dir@, *storage),
        ],
{
    let mut items: Vec<HealthCheckItem> = Vec::new();
    push_item(&mut items, probe_rtl_sdr(rtl));
    assert(item_texts(items@) =~= seq![rtl_item(*rtl)]);
    let mut found: Vec<HealthCheckItem> = probe_external_tools(satellites, tools);
    let ghost a = items@;
    let ghost b = found@;
    items.append(&mut found);
    assert(item_texts(items@) =~= item_texts(a) + item_texts(b));
    push_item(&mut items, probe_voicevox(voicevox, speech));
    push_item(&mut items, probe_storage(output_dir, storage));
    assert(item_texts(items@) =~= seq![rtl_item(*rtl)] + tool_items(*satellites, tools) + seq![
        voicevox_item(*voicevox, *speech),
        storage_item(output_dir@, *storage),
    ]);
    HealthReport { items }
}

/// A missing decoder, recorder of raw samples or speech engine does not keep the station from
/// starting, whatever is followed: with a receiver, rtl_fm and the storage in order, no check
/// finds an error.
pub proof fn law_only_reception_is_vital(
    rtl: RtlProbe,
    satellites: SatellitesConfig,
    tools: ToolsFound,
    voicevox: VoicevoxConfig,
    speech: VoicevoxProbe,
    dir: Seq<char>,
    storage: StorageProbe,
)
    ensures
        any_error(
            seq![rtl_item(rtl)] + tool_items(satellites, tools) + seq![
                voicevox_item(voicevox, speech),
                storage_item(dir, storage),
            ],
        ) <==> (rtl_item(rtl).status == HealthStatus::Error || !tools.rtl_fm || !(
        storage is Writable)),
{
    let items = seq![rtl_item(rtl)] + tool_items(satellites, tools) + seq![
        voicevox_item(voicevox, speech),
        storage_item(dir, storage),
    ];
    assert(items[0] == rtl_item(rtl));
    assert(items[1] == recording_tool(
        "rtl_fm (Receiver)"@,
        tools.rtl_fm,
        HealthStatus::Error,
    ));
    assert(items[2] == recording_tool(
        "rtl_sdr (IQ Recorder)"@,
        tools.rtl_sdr,
        HealthStatus::Warn,
    ));
    assert(items[items.len() - 1] == storage_item(dir, storage));
    assert(items[items.len() - 2] == voicevox_item(voicevox, speech));
}

/// A missing satdump, gr_satellites or rtl_sdr is a warning with advice, never an error.
pub proof fn law_missing_tools_are_warnings(satellites: SatellitesConfig, tools: ToolsFound)
    ensures
        forall|i: int|
            1 <= i < tool_items(satellites, tools).len() ==> {
                let item = #[trigger] tool_items(satellites, tools)[i];
                &&& item.status != HealthStatus::Error
                &&& item.status == HealthStatus::Warn <==> item.remedy is Some
            },
        !tools.rtl_sdr ==> tool_items(satellites, tools)[1].status == HealthStatus::Warn,
{
}

/// The receiver is in order where its test succeeds or runs on, and everything else is an error
/// with advice.
pub proof fn law_receiver_is_tested(probe: RtlProbe)
    ensures
        rtl_item(probe).status == HealthStatus::Healthy <==> probe is StillRunning || probe
            == (RtlProbe::Ended { success: true }),
        rtl_item(probe).status == HealthStatus::Healthy || rtl_item(probe).status
            == HealthStatus::Error,
        rtl_item(probe).status == HealthStatus::Error <==> rtl_item(probe).remedy is Some,
        probe matches RtlProbe::NotStarted(e) ==> e@.is_suffix_of(rtl_item(probe).message),
        probe matches RtlProbe::WaitFailed(e) ==> e@.is_suffix_of(rtl_item(probe).message),
{
    match probe {
        RtlProbe::NotStarted(e) => {
            let m = rtl_item(probe).message;
            assert(m.subrange(m.len() - e@.len(), m.len() as int) =~= e@);
        },
        RtlProbe::WaitFailed(e) => {
            let m = rtl_item(probe).message;
            assert(m.subrange(m.len() - e@.len(), m.len() as int) =~= e@);
        },
        _ => {},
    }
}

/// A tool that is there is in order, and one that is not is reported under its name: rtl_fm as an
/// error, rtl_sdr as a warning; satdump is looked for where Meteor-M or CubeSats are followed, and
/// gr_satellites where CubeSats are.
pub proof fn law_tools_are_looked_for_where_needed(config: SatellitesConfig, found: ToolsFound)
    ensures
        ({
            let items = tool_items(config, found);
            let decodes = (config.enable_meteor && config.meteor.enabled)
                || config.cubesats.enabled;
            &&& items.len() == 2 + (if decodes {
                1int
            } else {
                0
            }) + (if config.cubesats.enabled {
                1int
            } else {
                0
            })
            &&& items[0].name == "rtl_fm (Receiver)"@ && items[0].status == if found.rtl_fm {
                HealthStatus::Healthy
            } else {
                HealthStatus::Error
            }
            &&& items[1].name == "rtl_sdr (IQ Recorder)"@ && items[1].status == if found.rtl_sdr {
                HealthStatus::Healthy
            } else {
                HealthStatus::Warn
            }
            &&& decodes ==> items[2].name == "SatDump (Decoder)"@ && items[2].status
                == if found.satdump {
                HealthStatus::Healthy
            } else {
                HealthStatus::Warn
            }
            &&& config.cubesats.enabled ==> items[3].name == "gr-satellites (CubeSat)"@
                && items[3].status == if found.gr_satellites {
                HealthStatus::Healthy
            } else {
                HealthStatus::Warn
            }
        }),
{
}

/// Speech is never vital: an engine that is wanted and cannot be reached is a warning that names
/// it, one that answers or is switched off is in order.
pub proof fn law_speech_is_never_vital(config: VoicevoxConfig, probe: VoicevoxProbe)
    ensures
        voicevox_item(config, probe).status == HealthStatus::Healthy <==> !config.enabled
            || probe is Answered,
        voicevox_item(config, probe).status == HealthStatus::Warn <==> config.enabled && !(
        probe is Answered),
        config.enabled && probe is Unreachable ==> has_text(
            voicevox_item(config, probe).message,
            config.host@,
        ) && voicevox_item(config, probe).remedy is Some,
        config.enabled ==> (probe matches VoicevoxProbe::Answered(Some(version)) ==> has_text(
            voicevox_item(config, probe).message,
            trimmed(version@),
        )),
{
    lemma_has_part(
        "接続不能 ("@,
        config.host@,
        " に接続できません。音声通知はスキップされます)"@,
    );
    if let VoicevoxProbe::Answered(Some(version)) = probe {
        lemma_has_part("正常稼働中 (version "@, trimmed(version@), ")"@);
    }
}

/// Storage that cannot be written to is an error with advice that names the place and the reason.
pub proof fn law_storage_is_vital(dir: Seq<char>, probe: StorageProbe)
    ensures
        storage_item(dir, probe).status == HealthStatus::Healthy <==> probe is Writable,
        storage_item(dir, probe).status == HealthStatus::Error <==> !(probe is Writable),
        storage_item(dir, probe).remedy is Some <==> !(probe is Writable),
        probe is Writable || probe is NoDirectory ==> has_text(
            storage_item(dir, probe).message,
            dir,
        ),
        probe matches StorageProbe::NoDirectory(e) ==> e@.is_suffix_of(
            storage_item(dir, probe).message,
        ),
        probe matches StorageProbe::NotWritable(e) ==> e@.is_suffix_of(
            storage_item(dir, probe).message,
        ),
{
    let m = storage_item(dir, probe).message;
    match probe {
        StorageProbe::NoDirectory(e) => {
            assert(m =~= "ディレクトリ作成失敗 ("@ + dir + ("): "@ + e@));
            lemma_has_part("ディレクトリ作成失敗 ("@, dir, "): "@ + e@);
            assert(m.subrange(m.len() - e@.len(), m.len() as int) =~= e@);
        },
        StorageProbe::NotWritable(e) => {
            assert(m.subrange(m.len() - e@.len(), m.len() as int) =~= e@);
        },
        StorageProbe::Writable => {
            lemma_has_part("書き込み・削除確認完了 ("@, dir, ")"@);
        },
    }
}

/// The station starts unless a check found an error, and the verdict says so: stop, go on with
/// warnings, or all clear.
pub proof fn law_verdict_follows_from_the_checks(items: Seq<ItemText>)
    ensures
        has_text(verdict(items), "中断"@) <==> exists|i: int|
            0 <= i < items.len() && (#[trigger] items[i]).status == HealthStatus::Error,
        has_text(verdict(items), "警告"@) <==> !any_error(items) && exists|i: int|
            0 <= i < items.len() && (#[trigger] items[i]).status == HealthStatus::Warn,
        badge(HealthStatus::Healthy) == "[ OK ]"@,
        badge(HealthStatus::Warn) == "[WARN]"@,
        badge(HealthStatus::Error) == "[FAIL]"@,
{
    reveal_strlit("❌ 致命的なエラーが検出されました。起動を中断します。");
    reveal_strlit("⚠️ 警告がありますが、運用を継続可能です（生データ保存モード）。");
    reveal_strlit("✅ すべてのヘルスチェック項目をクリアしました！");
    reveal_strlit("中断");
    reveal_strlit("警告");
    let v = verdict(items);
    if any_error(items) {
        assert(v.subrange(21, 23) =~= "中断"@);
        assert(occurs_at(v, "中断"@, 21));
    } else if any_warning(items) {
        assert(v.subrange(3, 5) =~= "警告"@);
        assert(occurs_at(v, "警告"@, 3));
    }
    if has_text(v, "中断"@) {
        let i = choose|i: int| occurs_at(v, "中断"@, i);
        assert(v.subrange(i, i + 2)[0] == '中');
        assert(v[i] == '中');
    }
    if has_text(v, "警告"@) {
        let i = choose|i: int| occurs_at(v, "警告"@, i);
        assert(v.subrange(i, i + 2)[0] == '警');
        assert(v[i] == '警');
    }
}

/// Every result is shown: a line with its mark, name and message, and the advice below it where
/// there is some.
pub proof fn law_every_result_is_shown(items: Seq<ItemText>, n: nat, k: int)
    requires
        n <= items.len(),
        0 <= k < n,
    ensures
        exists|i: int|
            0 <= i < items_lines(items, n).len() && badge(items[k].status).is_prefix_of(
                #[trigger] items_lines(items, n)[i],
            ) && has_text(items_lines(items, n)[i], " "@ + items[k].name) && (": "@
                + items[k].message).is_suffix_of(items_lines(items, n)[i]) && (
            items[k].remedy matches Some(r) ==> i + 1 < items_lines(items, n).len()
                && r.is_suffix_of(items_lines(items, n)[i + 1])),
    decreases n,
{
    let m = (n - 1) as nat;
    let before = items_lines(items, m);
    let all = items_lines(items, n);
    if k < m {
        law_every_result_is_shown(items, m, k);
        let i = choose|i: int|
            0 <= i < before.len() && badge(items[k].status).is_prefix_of(#[trigger] before[i])
                && has_text(before[i], " "@ + items[k].name) && (": "@
                + items[k].message).is_suffix_of(before[i]) && (items[k].remedy matches Some(r)
                ==> i + 1 < before.len() && r.is_suffix_of(before[i + 1]));
        assert(all[i] == before[i]);
        if items[k].remedy is Some {
            assert(all[i + 1] == before[i + 1]);
        }
    } else {
        let item = items[k];
        let own = item_lines(item);
        let i = before.len() as int;
        let line = own[0];
        assert(all[i] == line);
        let mark = badge(item.status);
        let a = left_aligned(mark, 6);
        let b = left_aligned(item.name, 24);
        lemma_left_begins(mark, 6);
        lemma_left_begins(item.name, 24);
        assert(line.subrange(0, mark.len() as int) =~= a.subrange(0, mark.len() as int));
        assert(mark.is_prefix_of(line));
        reveal_strlit(" ");
        lemma_ends_with(" "@, " "@);
        lemma_has_across(a, " "@, " "@, b, item.name);
        lemma_has_more(a + " "@ + b, ": "@, " "@ + item.name);
        lemma_has_more(a + " "@ + b + ": "@, item.message, " "@ + item.name);
        let end = ": "@ + item.message;
        assert(line.subrange(line.len() - end.len(), line.len() as int) =~= end);
        if let Some(r) = item.remedy {
            let advice = own[1];
            assert(all[i + 1] == advice);
            assert(advice.subrange(advice.len() - r.len(), advice.len() as int) =~= r);
        }
    }
}

/// The plain values of a result are those that it holds, and the table shows all results between
/// its rules and the verdict behind them.
pub proof fn law_table_shows_results_and_verdict(item: HealthCheckItem, items: Seq<ItemText>)
    ensures
        item@.name == item.name@,
        item@.status == item.status,
        item@.message == item.message@,
        item@.remedy == opt_text(item.remedy),
        table_lines(items).len() == items_lines(items, items.len()).len() + 6,
        table_lines(items).subrange(3, table_lines(items).len() - 3) == items_lines(
            items,
            items.len(),
        ),
        table_lines(items)[table_lines(items).len() - 2] == verdict(items),
{
    let all = table_lines(items);
    assert(all.subrange(3, all.len() - 3) =~= items_lines(items, items.len()));
}

} // verus!
