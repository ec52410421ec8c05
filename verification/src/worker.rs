//! The decoding of recordings in the background: what is announced and reported of each, and what
//! a directory tells of its recording.

use crate::binary64::{of_integer, Binary64};
use crate::clock::{date_time_text, has_date, hms_text, jst_of, jst_time, year_text, CivilTime};
use crate::config::CubeSatTarget;
use crate::decoder::cubesat_args;
use crate::discord::{
    format_mhz, mhz_text, MAX_DISCORD_AUDIO_BYTES, PassReport, PassStatus, SatelliteTelemetry,
    TelemetryText,
};
use crate::engine::{DecodeResult, DecodeTask};
use crate::orbit::{
    azimuth_to_direction, compass_name, compass_point, signal_named, SatellitePass, SignalType,
};
use crate::path::{base_name, file_name, has_extension, join, joined, name_extension};
use crate::scheduler::{recording_of, session_dir_of, stamp_text, without_spaces};
use crate::text::{
    ascii_lower, contains, copy_opt, copy_pairs, debug_quoted, digits, has_text, lemma_has_part,
    lemma_last_part, lemma_one_piece, lemma_pieces_add, lemma_pieces_nonempty, lowercase, one_pair,
    opt_text, padded_digits, pieces, push_text, quoted, split, texts, unicode_lower, views,
};
use vstd::prelude::*;

verus! {

/// A recording to decode.
#[derive(Clone, Debug)]
pub struct DecodeJob {
    pub pass: SatellitePass,
    pub raw_path: String,
    pub session_dir: String,
}

impl DecodeJob {
    /// The task for the decoder. `raw_exists` says whether the recording is there.
    pub fn task(&self, raw_exists: bool) -> (r: DecodeTask)
        ensures
            r.satellite_name@ == self.pass.satellite_name@,
            r.frequency_hz == self.pass.frequency_hz,
            r.signal_type == self.pass.signal_type,
            r.raw_path@ == self.raw_path@,
            r.raw_exists == raw_exists,
            r.session_dir@ == self.session_dir@,
    {
        DecodeTask {
            satellite_name: self.pass.satellite_name.as_str().to_owned(),
            frequency_hz: self.pass.frequency_hz,
            signal_type: self.pass.signal_type,
            raw_path: self.raw_path.as_str().to_owned(),
            raw_exists,
            session_dir: self.session_dir.as_str().to_owned(),
        }
    }
}

/// What is said when a recording was decoded.
pub open spec fn decoded_words(name: Seq<char>, result: DecodeResult) -> Seq<char> {
    if result.image_path is Some {
        name + "の画像デコードが完了したのだ！画像を確認するのだ！"@
    } else if result.audio_path is Some {
        name + "の交信音声の録音が完了したのだ！音声を確認するのだ！"@
    } else {
        name + "のデータ保存が完了したのだ！"@
    }
}

/// What is said when a recording was decoded.
pub fn voice_message(name: &str, result: &DecodeResult) -> (r: String)
    ensures
        r@ == decoded_words(name@, *result),
{
    let mut r: String = name.to_owned();
    if result.image_path.is_some() {
        r.append("の画像デコードが完了したのだ！画像を確認するのだ！");
    } else if result.audio_path.is_some() {
        r.append("の交信音声の録音が完了したのだ！音声を確認するのだ！");
    } else {
        r.append("のデータ保存が完了したのだ！");
    }
    r
}

/// A report, as plain values.
pub struct ReportText {
    pub satellite_name: Seq<char>,
    pub signal_type_name: Seq<char>,
    pub max_elevation_deg: Binary64,
    pub direction: Seq<char>,
    pub frequency_hz: u64,
    pub pass_time_str: Seq<char>,
    pub telemetry: Option<TelemetryText>,
    pub has_image: bool,
    pub has_audio: bool,
    pub next_pass_info: Option<Seq<char>>,
}

/// What optional telemetry holds.
pub open spec fn opt_telemetry(t: Option<SatelliteTelemetry>) -> Option<TelemetryText> {
    match t {
        Some(x) => Some(x@),
        None => None,
    }
}

impl View for PassReport {
    type V = ReportText;

    open spec fn view(&self) -> ReportText {
        ReportText {
            satellite_name: self.satellite_name@,
            signal_type_name: self.signal_type_name@,
            max_elevation_deg: self.max_elevation_deg,
            direction: self.direction@,
            frequency_hz: self.frequency_hz,
            pass_time_str: self.pass_time_str@,
            telemetry: opt_telemetry(self.telemetry),
            has_image: self.has_image,
            has_audio: self.has_audio,
            next_pass_info: opt_text(self.next_pass_info),
        }
    }
}

/// When a pass was.
pub open spec fn pass_time(pass: SatellitePass) -> Seq<char> {
    date_time_text(jst_of(pass.aos as int)) + " 〜 "@ + hms_text(jst_of(pass.los as int))
}

/// Where a pass culminated, and how the antenna sees it.
pub open spec fn pass_direction(pass: SatellitePass) -> Seq<char> {
    compass_name(compass_point(pass.peak_azimuth_deg)) + " ("@ + (if pass.east_view() {
        "東側パス (見通し良好)"@
    } else {
        "西側パス (建物遮蔽)"@
    }) + ")"@
}

/// What was read of the files that a result names.
#[derive(Clone, Copy, Debug, PartialEq, Eq, Structural)]
pub struct FilesRead {
    /// The image could be read.
    pub image: bool,
    /// The length of the audio in bytes, where the file is there.
    pub audio_len: Option<u64>,
    /// The audio could be read.
    pub audio: bool,
}

impl FilesRead {
    /// The audio was read and is not longer than the channel takes.
    pub open spec fn has_fitting_audio(self) -> bool {
        &&& self.audio
        &&& self.audio_len is Some
        &&& self.audio_len->0 <= MAX_DISCORD_AUDIO_BYTES
    }
}

/// The report on a recording that was decoded, or on one that could not be.
pub open spec fn report_on(
    pass: SatellitePass,
    result: Result<DecodeResult, String>,
    files: FilesRead,
) -> ReportText {
    ReportText {
        satellite_name: pass.satellite_name@,
        signal_type_name: pass.signal_type.display(),
        max_elevation_deg: pass.max_elevation_deg,
        direction: pass_direction(pass),
        frequency_hz: pass.frequency_hz,
        pass_time_str: pass_time(pass),
        telemetry: match result {
            Ok(res) => opt_telemetry(res.telemetry),
            Err(e) => Some(
                TelemetryText {
                    snr_db: None,
                    lines_or_packets: None,
                    housekeeping: seq![("エラー詳細"@, e@)],
                    status: PassStatus::DecodeError,
                },
            ),
        },
        has_image: result matches Ok(res) && res.image_path is Some && files.image,
        has_audio: result matches Ok(res) && res.audio_path is Some && files.has_fitting_audio(),
        next_pass_info: None,
    }
}

/// A copy of telemetry.
fn copy_telemetry(t: &Option<SatelliteTelemetry>) -> (r: Option<SatelliteTelemetry>)
    ensures
        opt_telemetry(r) == opt_telemetry(*t),
{
    match t {
        Some(x) => Some(
            SatelliteTelemetry {
                snr_db: x.snr_db,
                lines_or_packets: copy_opt(&x.lines_or_packets),
                housekeeping: copy_pairs(&x.housekeeping),
                status: x.status,
            },
        ),
        None => None,
    }
}

/// The report on a recording.
fn make_report(
    pass: &SatellitePass,
    result: &Result<DecodeResult, String>,
    files: FilesRead,
) -> (r: PassReport)
    requires
        has_date(pass.aos as int),
        has_date(pass.los as int),
    ensures
        r@ == report_on(*pass, *result, files),
{
    let mut pass_time_str: String = jst_time(pass.aos).format_date_time();
    pass_time_str.append(" 〜 ");
    pass_time_str.append(jst_time(pass.los).format_hms().as_str());
    let mut direction: String = azimuth_to_direction(pass.peak_azimuth_deg).to_owned();
    direction.append(" (");
    direction.append(pass.view_geometry_desc());
    direction.append(")");
    let (telemetry, has_image, has_audio): (Option<SatelliteTelemetry>, bool, bool) = match result {
        Ok(res) => (
            copy_telemetry(&res.telemetry),
            res.image_path.is_some() && files.image,
            res.audio_path.is_some() && files.audio && match files.audio_len {
                Some(n) => audio_fits(n),
                None => false,
            },
        ),
        Err(e) => (
            Some(
                SatelliteTelemetry {
                    snr_db: None,
                    lines_or_packets: None,
                    housekeeping: one_pair("エラー詳細", e.as_str()),
                    status: PassStatus::DecodeError,
                },
            ),
            false,
            false,
        ),
    };
    PassReport {
        satellite_name: pass.satellite_name.as_str().to_owned(),
        signal_type_name: pass.signal_type.name().to_owned(),
        max_elevation_deg: pass.max_elevation_deg,
        direction,
        frequency_hz: pass.frequency_hz,
        pass_time_str,
        telemetry,
        has_image,
        has_audio,
        next_pass_info: None,
    }
}

/// Whether a file of audio is read for the report: it is not longer than the channel takes.
pub fn audio_fits(len: u64) -> (r: bool)
    ensures
        r == (len <= MAX_DISCORD_AUDIO_BYTES),
{
    len <= MAX_DISCORD_AUDIO_BYTES as u64
}

/// What a recording leads to: what is said, and the one report that is sent.
#[derive(Clone, Debug)]
pub struct JobNotice {
    pub speech: Option<String>,
    pub report: Option<PassReport>,
}

/// What an optional report holds.
pub open spec fn opt_report(r: Option<PassReport>) -> Option<ReportText> {
    match r {
        Some(x) => Some(x@),
        None => None,
    }
}

/// What a recording leads to, for the channels that are there. An error is reported, and not
/// spoken of.
pub fn process_decode_job(
    pass: &SatellitePass,
    result: &Result<DecodeResult, String>,
    files: FilesRead,
    discord: bool,
    voicevox: bool,
) -> (r: JobNotice)
    requires
        discord ==> has_date(pass.aos as int) && has_date(pass.los as int),
    ensures
        opt_text(r.speech) == match *result {
            Ok(res) => if voicevox {
                Some(decoded_words(pass.satellite_name@, res))
            } else {
                None
            },
            Err(_) => None,
        },
        opt_report(r.report) == if discord {
            Some(report_on(*pass, *result, files))
        } else {
            None
        },
{
    let speech: Option<String> = match result {
        Ok(res) => if voicevox {
            Some(voice_message(pass.satellite_name.as_str(), res))
        } else {
            None
        },
        Err(_) => None,
    };
    let report: Option<PassReport> = if discord {
        Some(make_report(pass, result, files))
    } else {
        None
    };
    JobNotice { speech, report }
}

/// A report never shows a file that the result does not name, that could not be read or, for
/// audio, that is longer than the channel takes. A failed decoding is reported as an error.
pub proof fn law_reports_show_only_what_there_is(
    pass: SatellitePass,
    result: Result<DecodeResult, String>,
    files: FilesRead,
)
    ensures
        report_on(pass, result, files).has_image ==> result is Ok && result->Ok_0.image_path is Some
            && files.image,
        report_on(pass, result, files).has_audio ==> result is Ok && result->Ok_0.audio_path is Some
            && files.audio && files.audio_len is Some && files.audio_len->0
            <= MAX_DISCORD_AUDIO_BYTES,
        result is Err ==> report_on(pass, result, files).telemetry->0.status
            == PassStatus::DecodeError,
{
}

/// `s` without hyphens, underscores and spaces.
pub open spec fn plain_name(s: Seq<char>) -> Seq<char> {
    s.filter(|c: char| c != '-' && c != '_' && c != ' ')
}

/// `s` without hyphens, underscores and spaces.
pub fn strip_name(s: &str) -> (r: String)
    ensures
        r@ == plain_name(s@),
{
    let ghost keep = |c: char| c != '-' && c != '_' && c != ' ';
    let n: usize = s.unicode_len();
    let mut r: String = String::new();
    let mut i: usize = 0;
    proof {
        reveal(Seq::filter);
        assert(r@ =~= s@.take(0).filter(keep));
    }
    while i < n
        invariant
            keep == (|c: char| c != '-' && c != '_' && c != ' '),
            n == s@.len(),
            i <= n,
            r@ == s@.take(i as int).filter(keep),
        decreases n - i,
    {
        let c: char = s.get_char(i);
        proof {
            crate::text::lemma_filter_push(s@.take(i as int), c, keep);
            assert(s@.take(i + 1) =~= s@.take(i as int).push(c));
        }
        if c != '-' && c != '_' && c != ' ' {
            let ghost before = r@;
            r.append(s.substring_char(i, i + 1));
            assert(r@ =~= before.push(c));
        }
        i = i + 1;
    }
    assert(s@.take(n as int) =~= s@);
    r
}

/// A target has this name, or one of the two names holds the other.
pub open spec fn names_match(a: Seq<char>, b: Seq<char>) -> bool {
    has_text(a, b) || has_text(b, a)
}

/// Target `i` is the first whose name matches.
pub open spec fn is_first_match(names: Seq<Seq<char>>, sat: Seq<char>, i: int) -> bool {
    &&& 0 <= i < names.len()
    &&& names_match(names[i], sat)
    &&& forall|j: int| 0 <= j < i ==> !names_match(#[trigger] names[j], sat)
}

/// Frequency and signal type by the plain lower-case name of a satellite. `names` are the plain
/// lower-case names of the CubeSat targets.
pub open spec fn matched_signal(
    sat: Seq<char>,
    names: Seq<Seq<char>>,
    targets: Seq<CubeSatTarget>,
) -> (u64, SignalType) {
    if has_text(sat, "meteor"@) {
        (137_900_000, SignalType::Lrpt)
    } else if has_text(sat, "iss"@) {
        (145_825_000, SignalType::AprsPacket)
    } else if has_text(sat, "noaa"@) {
        (137_100_000, SignalType::Apt)
    } else if exists|i: int| is_first_match(names, sat, i) {
        let i = choose|i: int| is_first_match(names, sat, i);
        (targets[i].freq, signal_named(unicode_lower(targets[i].kind@)))
    } else {
        (145_660_000, SignalType::MorseCw)
    }
}

/// Frequency and signal type by the plain lower-case name of a satellite.
pub fn match_signal(sat: &str, names: &Vec<String>, targets: &Vec<CubeSatTarget>) -> (r: (
    u64,
    SignalType,
))
    requires
        names@.len() == targets@.len(),
    ensures
        r == matched_signal(sat@, texts(names@), targets@),
{
    let ghost all = texts(names@);
    if contains(sat, "meteor") {
        return (137_900_000, SignalType::Lrpt);
    }
    if contains(sat, "iss") {
        return (145_825_000, SignalType::AprsPacket);
    }
    if contains(sat, "noaa") {
        return (137_100_000, SignalType::Apt);
    }
    let mut i: usize = 0;
    while i < names.len()
        invariant
            all == texts(names@),
            names@.len() == targets@.len(),
            i <= names@.len(),
            !has_text(sat@, "meteor"@),
            !has_text(sat@, "iss"@),
            !has_text(sat@, "noaa"@),
            forall|j: int| 0 <= j < i ==> !names_match(#[trigger] all[j], sat@),
        decreases names@.len() - i,
    {
        assert(all[i as int] == names@[i as int]@);
        if contains(names[i].as_str(), sat) || contains(sat, names[i].as_str()) {
            proof {
                assert(is_first_match(all, sat@, i as int));
                let k = choose|k: int| is_first_match(all, sat@, k);
                assert(is_first_match(all, sat@, k));
                if k < i {
                    assert(!names_match(all[k], sat@));
                } else if i < k {
                    assert(!names_match(all[i as int], sat@));
                }
            }
            return (targets[i].freq, SignalType::from_str_type(targets[i].kind.as_str()));
        }
        i = i + 1;
    }
    proof {
        if exists|k: int| is_first_match(all, sat@, k) {
            let k = choose|k: int| is_first_match(all, sat@, k);
            assert(!names_match(all[k], sat@));
        }
    }
    (145_660_000, SignalType::MorseCw)
}

/// The plain lower-case names of the targets.
pub open spec fn target_names(targets: Seq<CubeSatTarget>) -> Seq<Seq<char>> {
    Seq::new(targets.len(), |i: int| plain_name(unicode_lower(targets[i].name@)))
}

/// The name of the satellite in the name of a session's directory: what stands behind the last
/// underscore.
pub open spec fn satellite_in(dir_name: Seq<char>) -> Seq<char> {
    pieces(dir_name, '_').last()
}

/// Why a directory does not tell of a recording; nothing where it does.
pub open spec fn session_error(
    session_dir: Seq<char>,
    raw_u8_exists: bool,
    raw_wav_exists: bool,
) -> Option<Seq<char>> {
    if !raw_u8_exists && !raw_wav_exists {
        Some(
            "セッションディレクトリ内に raw.u8 または raw.wav が存在しません: "@ + debug_quoted(
                session_dir,
            ),
        )
    } else if base_name(session_dir) is None {
        Some("セッションディレクトリ名が無効です"@)
    } else {
        None
    }
}

/// What the directory of a session tells of its recording: the file, and a pass with the
/// satellite, its frequency and signal type. The pass is taken to be the ten minutes before `now`,
/// at a middling height in the east.
pub fn resolve_pass_from_session_dir(
    targets: &Vec<CubeSatTarget>,
    session_dir: &str,
    raw_u8_exists: bool,
    raw_wav_exists: bool,
    now: i64,
) -> (r: Result<(SatellitePass, String), String>)
    requires
        now >= i64::MIN + 600_000,
    ensures
        r is Err == session_error(session_dir@, raw_u8_exists, raw_wav_exists) is Some,
        r is Err ==> Some(r->Err_0@) == session_error(session_dir@, raw_u8_exists, raw_wav_exists),
        r matches Ok(found) ==> {
            let name = satellite_in(base_name(session_dir@)->0);
            let signal = matched_signal(
                plain_name(unicode_lower(name)),
                target_names(targets@),
                targets@,
            );
            &&& found.0.satellite_name@ == name
            &&& found.0.frequency_hz == signal.0
            &&& found.0.signal_type == signal.1
            &&& found.0.aos == now - 600_000
            &&& found.0.los == now
            &&& found.0.max_elevation_deg == of_integer(45)
            &&& found.0.peak_azimuth_deg == of_integer(90)
            &&& found.1@ == joined(
                session_dir@,
                if raw_u8_exists {
                    "raw.u8"@
                } else {
                    "raw.wav"@
                },
            )
        },
{
    let raw_path: String = if raw_u8_exists {
        join(session_dir, "raw.u8")
    } else if raw_wav_exists {
        join(session_dir, "raw.wav")
    } else {
        let mut e: String =
            "セッションディレクトリ内に raw.u8 または raw.wav が存在しません: ".to_owned();
        e.append(quoted(session_dir).as_str());
        return Err(e);
    };
    let dir_name: &str = match file_name(session_dir) {
        Some(name) => name,
        None => {
            return Err("セッションディレクトリ名が無効です".to_owned());
        },
    };
    let parts: Vec<&str> = split(dir_name, '_');
    let name: &str = parts[parts.len() - 1];
    assert(views(parts@).last() == name@);
    let sat: String = strip_name(lowercase(name).as_str());
    let mut names: Vec<String> = Vec::new();
    let mut i: usize = 0;
    while i < targets.len()
        invariant
            i <= targets@.len(),
            texts(names@) == target_names(targets@).take(i as int),
        decreases targets@.len() - i,
    {
        let plain: String = strip_name(lowercase(targets[i].name.as_str()).as_str());
        push_text(&mut names, plain.as_str());
        i = i + 1;
        assert(texts(names@) =~= target_names(targets@).take(i as int));
    }
    assert(target_names(targets@).take(i as int) =~= target_names(targets@));
    assert(texts(names@).len() == names@.len());
    let (frequency_hz, signal_type): (u64, SignalType) = match_signal(
        sat.as_str(),
        &names,
        targets,
    );
    Ok(
        (
            SatellitePass {
                satellite_name: name.to_owned(),
                frequency_hz,
                signal_type,
                aos: now - 600_000,
                los: now,
                max_elevation_deg: Binary64::integer(45),
                peak_azimuth_deg: Binary64::integer(90),
            },
            raw_path,
        ),
    )
}

/// The lines that show what a directory told of its recording.
pub open spec fn session_lines(pass: SatellitePass, raw_path: Seq<char>) -> Seq<Seq<char>> {
    seq![
        "   衛星名: "@ + pass.satellite_name@,
        "   信号方式: "@ + pass.signal_type.display(),
        "   下り周波数: "@ + mhz_text(pass.frequency_hz as nat) + " MHz"@,
        "   生データ: "@ + debug_quoted(raw_path),
    ]
}

/// The lines that show what decoding yielded.
pub open spec fn result_lines(result: DecodeResult) -> Seq<Seq<char>> {
    (match result.telemetry_summary {
        Some(s) => seq!["   要約: "@ + s@],
        None => Seq::empty(),
    }) + (match result.image_path {
        Some(p) => seq!["   🖼️ 画像生成: "@ + debug_quoted(p@)],
        None => Seq::empty(),
    }) + (match result.audio_path {
        Some(p) => seq!["   🎵 音声生成: "@ + debug_quoted(p@)],
        None => Seq::empty(),
    })
}

/// A line with a label.
fn push_line(lines: &mut Vec<String>, label: &str, value: &str)
    ensures
        texts(final(lines)@) == texts(old(lines)@).push(label@ + value@),
{
    let mut line: String = label.to_owned();
    line.append(value);
    push_text(lines, line.as_str());
}

/// The lines that show what a directory told of its recording.
pub fn describe_session(pass: &SatellitePass, raw_path: &str) -> (r: Vec<String>)
    ensures
        texts(r@) == session_lines(*pass, raw_path@),
{
    let mut r: Vec<String> = Vec::new();
    push_line(&mut r, "   衛星名: ", pass.satellite_name.as_str());
    push_line(&mut r, "   信号方式: ", pass.signal_type.name());
    let mut line: String = "   下り周波数: ".to_owned();
    line.append(format_mhz(pass.frequency_hz).as_str());
    line.append(" MHz");
    push_text(&mut r, line.as_str());
    push_line(&mut r, "   生データ: ", quoted(raw_path).as_str());
    assert(texts(r@) =~= session_lines(*pass, raw_path@));
    r
}

/// The lines that show what decoding yielded.
pub fn describe_result(result: &DecodeResult) -> (r: Vec<String>)
    ensures
        texts(r@) == result_lines(*result),
{
    let mut r: Vec<String> = Vec::new();
    if let Some(s) = &result.telemetry_summary {
        push_line(&mut r, "   要約: ", s.as_str());
    }
    if let Some(p) = &result.image_path {
        push_line(&mut r, "   🖼️ 画像生成: ", quoted(p.as_str()).as_str());
    }
    if let Some(p) = &result.audio_path {
        push_line(&mut r, "   🎵 音声生成: ", quoted(p.as_str()).as_str());
    }
    assert(texts(r@) =~= result_lines(*result));
    r
}

/// Characters behind the last separator belong to the last piece.
proof fn lemma_last_piece(a: Seq<char>, b: Seq<char>, sep: char)
    requires
        forall|i: int| 0 <= i < b.len() ==> (#[trigger] b[i]) != sep,
    ensures
        pieces(a + b, sep).len() == pieces(a, sep).len(),
        pieces(a + b, sep).len() > 0,
        pieces(a + b, sep).last() == pieces(a, sep).last() + b,
    decreases b.len(),
{
    crate::text::lemma_pieces_nonempty(a, sep);
    if b.len() == 0 {
        assert(a + b =~= a);
        assert(pieces(a, sep).last() + b =~= pieces(a, sep).last());
    } else {
        let front = b.drop_last();
        assert forall|i: int| 0 <= i < front.len() implies (#[trigger] front[i]) != sep by {
            assert(b[i] != sep);
        }
        lemma_last_piece(a, front, sep);
        assert((a + b).drop_last() =~= a + front);
        assert(b[b.len() - 1] != sep);
        assert((pieces(a, sep).last() + front).push(b.last()) =~= pieces(a, sep).last() + b);
    }
}

/// The piece behind a separator at the end is empty.
proof fn lemma_piece_after_separator(a: Seq<char>, sep: char)
    requires
        a.len() > 0,
        a.last() == sep,
    ensures
        pieces(a, sep).last() == Seq::<char>::empty(),
{
    crate::text::lemma_pieces_nonempty(a, sep);
}

/// The last component of a file in a directory is its name.
proof fn lemma_base_name_of_joined(dir: Seq<char>, name: Seq<char>)
    requires
        name.len() > 2,
        forall|i: int| 0 <= i < name.len() ==> (#[trigger] name[i]) != '/',
    ensures
        base_name(joined(dir, name)) == Some(name),
{
    reveal_strlit("/");
    reveal_strlit(".");
    reveal_strlit("..");
    let path = joined(dir, name);
    if dir.len() == 0 {
        assert(path =~= Seq::<char>::empty() + name);
        lemma_last_piece(Seq::empty(), name, '/');
        assert(pieces(Seq::<char>::empty(), '/').last() + name =~= name);
    } else if dir.last() == '/' {
        lemma_piece_after_separator(dir, '/');
        lemma_last_piece(dir, name, '/');
        assert(Seq::<char>::empty() + name =~= name);
    } else {
        assert((dir + "/"@).last() == '/');
        lemma_piece_after_separator(dir + "/"@, '/');
        lemma_last_piece(dir + "/"@, name, '/');
        assert(Seq::<char>::empty() + name =~= name);
    }
    let all = pieces(path, '/');
    let keep = |c: Seq<char>| c.len() > 0 && c != "."@;
    assert(all.last() == name);
    crate::text::lemma_filter_push(all.drop_last(), name, keep);
    assert(all.drop_last().push(name) =~= all);
    assert(keep(name));
}

/// Digits are no slashes.
proof fn lemma_padded_digits_plain(n: nat, width: nat)
    ensures
        padded_digits(n, width).len() == width,
        forall|i: int|
            0 <= i < width ==> (#[trigger] padded_digits(n, width)[i]) != '/' && padded_digits(
                n,
                width,
            )[i] != '_',
    decreases width,
{
    if width > 0 {
        lemma_padded_digits_plain(n / 10, (width - 1) as nat);
    }
}

/// Digits are no slashes.
proof fn lemma_digits_plain(n: nat)
    ensures
        digits(n).len() > 0,
        forall|i: int| 0 <= i < digits(n).len() ==> (#[trigger] digits(n)[i]) != '/',
    decreases n,
{
    if n >= 10 {
        lemma_digits_plain(n / 10);
    }
}

/// A time stamp holds no slash.
proof fn lemma_stamp_plain(c: CivilTime)
    ensures
        stamp_text(c).len() > 2,
        forall|i: int| 0 <= i < stamp_text(c).len() ==> (#[trigger] stamp_text(c)[i]) != '/',
{
    reveal_strlit("_");
    reveal_strlit("+");
    reveal_strlit("-");
    let y = c.year as int;
    if y >= 0 {
        lemma_padded_digits_plain(y as nat, 4);
        lemma_digits_plain(y as nat);
    } else {
        lemma_padded_digits_plain((-y) as nat, 4);
        lemma_digits_plain((-y) as nat);
    }
    lemma_padded_digits_plain(c.month as nat, 2);
    lemma_padded_digits_plain(c.day as nat, 2);
    lemma_padded_digits_plain(c.hour as nat, 2);
    lemma_padded_digits_plain(c.minute as nat, 2);
    lemma_padded_digits_plain(c.second as nat, 2);
    assert(forall|i: int|
        0 <= i < year_text(y).len() ==> (#[trigger] year_text(y)[i]) != '/');
}

/// The directory of a session names its satellite: what is read back from it is the name of the
/// satellite without its spaces.
pub proof fn law_session_names_its_satellite(output_dir: Seq<char>, pass: SatellitePass)
    requires
        forall|i: int|
            0 <= i < pass.satellite_name@.len() ==> (#[trigger] pass.satellite_name@[i]) != '/'
                && pass.satellite_name@[i] != '_',
    ensures
        base_name(session_dir_of(output_dir, pass)) is Some,
        satellite_in(base_name(session_dir_of(output_dir, pass))->0) == without_spaces(
            pass.satellite_name@,
        ),
{
    reveal_strlit("_");
    let stamp = stamp_text(jst_of(pass.aos as int));
    let keep = |c: char| c != ' ';
    let plain = pass.satellite_name@.filter(keep);
    let name = stamp + "_"@ + plain;
    lemma_stamp_plain(jst_of(pass.aos as int));
    assert forall|i: int| 0 <= i < plain.len() implies (#[trigger] plain[i]) != '/' && plain[i]
        != '_' by {
        assert(plain.contains(plain[i]));
        pass.satellite_name@.lemma_filter_contains_rev(keep, plain[i]);
        let j = choose|j: int|
            0 <= j < pass.satellite_name@.len() && pass.satellite_name@[j] == plain[i];
        assert(pass.satellite_name@[j] != '/');
    }
    assert forall|i: int| 0 <= i < name.len() implies (#[trigger] name[i]) != '/' by {
        if i < stamp.len() {
            assert(stamp[i] != '/');
        } else if i > stamp.len() {
            assert(plain[i - stamp.len() - 1] != '/');
        }
    }
    lemma_base_name_of_joined(output_dir, name);
    assert((stamp + "_"@).last() == '_');
    lemma_piece_after_separator(stamp + "_"@, '_');
    lemma_last_piece(stamp + "_"@, plain, '_');
    assert(Seq::<char>::empty() + plain =~= plain);
}

/// A report tells of its own pass: satellite, signal, frequency, height, direction and time are
/// those of the pass, and telemetry is that of the result.
pub proof fn law_reports_tell_of_their_pass(
    pass: SatellitePass,
    result: Result<DecodeResult, String>,
    files: FilesRead,
)
    ensures
        ({
            let r = report_on(pass, result, files);
            &&& r.satellite_name == pass.satellite_name@
            &&& r.signal_type_name == pass.signal_type.display()
            &&& r.frequency_hz == pass.frequency_hz
            &&& r.max_elevation_deg == pass.max_elevation_deg
            &&& has_text(r.direction, compass_name(compass_point(pass.peak_azimuth_deg)))
            &&& has_text(
                r.direction,
                if pass.east_view() {
                    "東側"@
                } else {
                    "西側"@
                },
            )
            &&& date_time_text(jst_of(pass.aos as int)).is_prefix_of(r.pass_time_str)
            &&& hms_text(jst_of(pass.los as int)).is_suffix_of(r.pass_time_str)
            &&& result is Ok ==> r.telemetry == opt_telemetry(result->Ok_0.telemetry)
            &&& result is Err ==> r.telemetry->0.housekeeping.last().1 == result->Err_0@
        }),
{
    let r = report_on(pass, result, files);
    let name = compass_name(compass_point(pass.peak_azimuth_deg));
    let view = if pass.east_view() {
        "東側パス (見通し良好)"@
    } else {
        "西側パス (建物遮蔽)"@
    };
    let side = if pass.east_view() {
        "東側"@
    } else {
        "西側"@
    };
    reveal_strlit("東側");
    reveal_strlit("西側");
    reveal_strlit("東側パス (見通し良好)");
    reveal_strlit("西側パス (建物遮蔽)");
    assert(r.direction =~= Seq::<char>::empty() + name + (" ("@ + view + ")"@));
    lemma_has_part(Seq::empty(), name, " ("@ + view + ")"@);
    assert(view =~= side + view.skip(2));
    assert(r.direction =~= (name + " ("@) + side + (view.skip(2) + ")"@));
    lemma_has_part(name + " ("@, side, view.skip(2) + ")"@);
    let begun = date_time_text(jst_of(pass.aos as int));
    let ended = hms_text(jst_of(pass.los as int));
    let time = r.pass_time_str;
    assert(begun =~= time.subrange(0, begun.len() as int));
    assert(ended =~= time.subrange(time.len() - ended.len(), time.len() as int));
}

/// A report shows all there is: an image that could be read is shown, and audio that could be read
/// and is no longer than eight MiB.
pub proof fn law_reports_show_all_there_is(
    pass: SatellitePass,
    result: Result<DecodeResult, String>,
    files: FilesRead,
)
    requires
        result is Ok,
    ensures
        result->Ok_0.image_path is Some && files.image ==> report_on(
            pass,
            result,
            files,
        ).has_image,
        result->Ok_0.audio_path is Some && files.audio && files.audio_len is Some
            && files.audio_len->0 <= 8 * 1024 * 1024 ==> report_on(pass, result, files).has_audio,
        report_on(pass, result, files).has_audio ==> files.audio_len->0 <= 8 * 1024 * 1024,
{
}

/// What is said of a decoded recording names the satellite, and speaks of an image only where
/// there is one, and of audio only where there is that.
pub proof fn law_what_is_said_is_what_there_is(name: Seq<char>, result: DecodeResult)
    ensures
        name.is_prefix_of(decoded_words(name, result)),
        result.image_path is Some ==> decoded_words(name, result)
            == name + "の画像デコードが完了したのだ！画像を確認するのだ！"@,
        result.image_path is None && result.audio_path is Some ==> decoded_words(name, result)
            == name + "の交信音声の録音が完了したのだ！音声を確認するのだ！"@,
        result.image_path is None && result.audio_path is None ==> decoded_words(name, result)
            == name + "のデータ保存が完了したのだ！"@,
{
    let said = decoded_words(name, result);
    assert(name =~= said.subrange(0, name.len() as int));
}

/// A recording is recognised by the name of its satellite: the weather satellites and the station
/// by a word in it, a CubeSat by the first target whose name fits, and what fits nothing is taken
/// for a Morse beacon.
pub proof fn law_recordings_are_recognised_by_name(
    sat: Seq<char>,
    names: Seq<Seq<char>>,
    targets: Seq<CubeSatTarget>,
    i: int,
)
    requires
        names.len() == targets.len(),
    ensures
        has_text(sat, "meteor"@) ==> matched_signal(sat, names, targets) == (
            137_900_000u64,
            SignalType::Lrpt,
        ),
        has_text(sat, "iss"@) && !has_text(sat, "meteor"@) ==> matched_signal(sat, names, targets)
            == (145_825_000u64, SignalType::AprsPacket),
        has_text(sat, "noaa"@) && !has_text(sat, "meteor"@) && !has_text(sat, "iss"@)
            ==> matched_signal(sat, names, targets) == (137_100_000u64, SignalType::Apt),
        !has_text(sat, "meteor"@) && !has_text(sat, "iss"@) && !has_text(sat, "noaa"@) ==> {
            &&& 0 <= i < names.len() && (has_text(names[i], sat) || has_text(sat, names[i])) && (
            forall|j: int|
                0 <= j < i ==> !has_text(#[trigger] names[j], sat) && !has_text(sat, names[j]))
                ==> matched_signal(sat, names, targets) == (
                targets[i].freq,
                signal_named(unicode_lower(targets[i].kind@)),
            )
            &&& (forall|j: int|
                0 <= j < names.len() ==> !has_text(#[trigger] names[j], sat) && !has_text(
                    sat,
                    names[j],
                )) ==> matched_signal(sat, names, targets) == (145_660_000u64, SignalType::MorseCw)
        },
{
    if exists|k: int| is_first_match(names, sat, k) {
        let k = choose|k: int| is_first_match(names, sat, k);
        assert(is_first_match(names, sat, k));
        assert(names_match(names[k], sat));
        if 0 <= i < k {
            assert(!names_match(names[i], sat));
        }
    }
    if 0 <= i < names.len() && (has_text(names[i], sat) || has_text(sat, names[i])) && (forall|
        j: int,
    |
        0 <= j < i ==> !has_text(#[trigger] names[j], sat) && !has_text(sat, names[j])) {
        assert(is_first_match(names, sat, i));
    }
}

/// The extension of a file in a directory.
proof fn lemma_extension_of_raw(dir: Seq<char>)
    ensures
        name_extension(joined(dir, "raw.u8"@)) == Some("u8"@),
        name_extension(joined(dir, "raw.wav"@)) == Some("wav"@),
{
    reveal_strlit("raw.u8");
    reveal_strlit("raw.wav");
    reveal_strlit("u8");
    reveal_strlit("wav");
    lemma_base_name_of_joined(dir, "raw.u8"@);
    lemma_base_name_of_joined(dir, "raw.wav"@);
    let head = seq!['r', 'a', 'w', '.'];
    let front = seq!['r', 'a', 'w'];
    assert("raw.u8"@ =~= head + "u8"@);
    assert("raw.wav"@ =~= head + "wav"@);
    assert(head.drop_last() =~= front);
    lemma_one_piece(front, '.');
    lemma_one_piece("u8"@, '.');
    lemma_one_piece("wav"@, '.');
    lemma_pieces_add(head, "u8"@, '.');
    lemma_pieces_add(head, "wav"@, '.');
    assert(pieces(head, '.') =~= seq![front, Seq::empty()]);
    assert(Seq::<char>::empty() + "u8"@ =~= "u8"@);
    assert(Seq::<char>::empty() + "wav"@ =~= "wav"@);
    assert(pieces("raw.u8"@, '.') =~= seq![front, "u8"@]);
    assert(pieces("raw.wav"@, '.') =~= seq![front, "wav"@]);
}

/// What the receiver records is what the decoder reads: the recording of a pass is decoded as raw
/// samples where the receiver writes those, and as audio where it writes a WAV file.
pub proof fn law_recordings_are_read_as_they_were_made(
    dir: Seq<char>,
    signal: SignalType,
    pipeline: Seq<char>,
    samplerate: nat,
)
    ensures
        cubesat_args(pipeline, recording_of(dir, signal), dir, samplerate)[1] == if signal.raw_iq() {
            "baseband"@
        } else {
            "audio"@
        },
        name_extension(recording_of(dir, signal)) == Some(
            if signal.raw_iq() {
                "u8"@
            } else {
                "wav"@
            },
        ),
{
    lemma_extension_of_raw(dir);
    reveal_strlit("u8");
    reveal_strlit("wav");
    assert(ascii_lower("u8"@).len() == 2);
    assert(ascii_lower("wav"@).len() == 3);
}

/// A directory tells of a recording where it holds one and has a name, and the error says which of
/// these is missing.
pub proof fn law_sessions_need_a_recording(dir: Seq<char>, raw_u8: bool, raw_wav: bool)
    ensures
        session_error(dir, raw_u8, raw_wav) is None <==> (raw_u8 || raw_wav) && base_name(
            dir,
        ) is Some,
        !raw_u8 && !raw_wav ==> debug_quoted(dir).is_suffix_of(
            session_error(dir, raw_u8, raw_wav)->0,
        ),
{
    if !raw_u8 && !raw_wav {
        let e = session_error(dir, raw_u8, raw_wav)->0;
        let q = debug_quoted(dir);
        assert(e.subrange(e.len() - q.len(), e.len() as int) =~= q);
    }
}

/// Names are compared without their hyphens, underscores and spaces, and nothing else is left out.
pub proof fn law_names_are_compared_plainly(s: Seq<char>, c: char)
    ensures
        plain_name(s.push(c)) == if c == '-' || c == '_' || c == ' ' {
            plain_name(s)
        } else {
            plain_name(s).push(c)
        },
        plain_name(Seq::empty()) == Seq::<char>::empty(),
{
    let keep = |x: char| x != '-' && x != '_' && x != ' ';
    crate::text::lemma_filter_push(s, c, keep);
    reveal(Seq::filter);
    assert(plain_name(Seq::empty()) =~= Seq::<char>::empty());
}

/// What is shown of a session and of a result is theirs: satellite, signal, frequency and
/// recording; summary, image and audio, each only where there is one.
pub proof fn law_sessions_are_shown(pass: SatellitePass, raw_path: Seq<char>, result: DecodeResult)
    ensures
        ({
            let lines = session_lines(pass, raw_path);
            &&& lines.len() == 4
            &&& pass.satellite_name@.is_suffix_of(lines[0])
            &&& pass.signal_type.display().is_suffix_of(lines[1])
            &&& (mhz_text(pass.frequency_hz as nat) + " MHz"@).is_suffix_of(lines[2])
            &&& debug_quoted(raw_path).is_suffix_of(lines[3])
        }),
        ({
            let lines = result_lines(result);
            &&& lines.len() == (if result.telemetry_summary is Some {
                1int
            } else {
                0
            }) + (if result.image_path is Some {
                1int
            } else {
                0
            }) + (if result.audio_path is Some {
                1int
            } else {
                0
            })
            &&& result.telemetry_summary matches Some(s) ==> s@.is_suffix_of(lines[0])
            &&& result.image_path matches Some(p) ==> exists|k: int|
                0 <= k < lines.len() && #[trigger] lines[k] == "   🖼️ 画像生成: "@
                    + debug_quoted(p@)
            &&& result.audio_path matches Some(p) ==> lines.last() == "   🎵 音声生成: "@
                + debug_quoted(p@)
        }),
{
    lemma_last_part("   衛星名: "@, pass.satellite_name@);
    lemma_last_part("   信号方式: "@, pass.signal_type.display());
    let mhz = mhz_text(pass.frequency_hz as nat) + " MHz"@;
    lemma_last_part("   下り周波数: "@, mhz);
    assert(session_lines(pass, raw_path)[2] =~= "   下り周波数: "@ + mhz);
    lemma_last_part("   生データ: "@, debug_quoted(raw_path));
    let lines = result_lines(result);
    if let Some(s) = result.telemetry_summary {
        lemma_last_part("   要約: "@, s@);
    }
    if let Some(p) = result.image_path {
        let k: int = if result.telemetry_summary is Some {
            1
        } else {
            0
        };
        assert(lines[k] == "   🖼️ 画像生成: "@ + debug_quoted(p@));
    }
}

/// The extension of a file is what stands behind the last dot of its name, whatever directory it
/// lies in, and its case does not matter.
pub proof fn law_extension_is_behind_the_last_dot(dir: Seq<char>, stem: Seq<char>, ext: Seq<char>)
    requires
        stem.len() > 0,
        ext.len() > 0,
        forall|i: int| 0 <= i < stem.len() ==> (#[trigger] stem[i]) != '/',
        forall|i: int| 0 <= i < ext.len() ==> (#[trigger] ext[i]) != '/' && ext[i] != '.',
    ensures
        name_extension(joined(dir, stem + seq!['.'] + ext)) == Some(ext),
        has_extension(joined(dir, stem + seq!['.'] + ext), ascii_lower(ext)),
{
    let head = stem + seq!['.'];
    let name = head + ext;
    assert forall|i: int| 0 <= i < name.len() implies (#[trigger] name[i]) != '/' by {
        if i < stem.len() {
            assert(name[i] == stem[i]);
        } else if i > stem.len() {
            assert(name[i] == ext[i - stem.len() - 1]);
        }
    }
    lemma_base_name_of_joined(dir, name);
    assert(head.drop_last() =~= stem);
    assert(!ext.contains('.'));
    lemma_one_piece(ext, '.');
    lemma_pieces_add(head, ext, '.');
    lemma_pieces_nonempty(stem, '.');
    let parts = pieces(stem, '.');
    assert(pieces(head, '.') == parts.push(Seq::empty()));
    assert(Seq::<char>::empty() + ext =~= ext);
    let all = pieces(name, '.');
    assert(all =~= parts + seq![ext]);
    if parts.len() == 1 {
        lemma_single_piece(stem, '.');
    }
    assert(ascii_lower(ascii_lower(ext)) =~= ascii_lower(ext)) by {
        assert forall|i: int| 0 <= i < ext.len() implies ascii_lower(ascii_lower(ext))[i]
            == ascii_lower(ext)[i] by {
            crate::text::law_ascii_letters_change_their_case(ext[i]);
        }
    }
}

/// A text with one piece is that piece.
proof fn lemma_single_piece(s: Seq<char>, sep: char)
    requires
        pieces(s, sep).len() == 1,
    ensures
        pieces(s, sep)[0] == s,
    decreases s.len(),
{
    if s.len() > 0 {
        let front = s.drop_last();
        lemma_pieces_nonempty(front, sep);
        lemma_single_piece(front, sep);
        assert(front.push(s.last()) =~= s);
    } else {
        assert(pieces(s, sep)[0] =~= s);
    }
}

/// The plain values of a report are those that it holds, and a target is known by its plain name.
pub proof fn law_reports_are_what_they_say(r: PassReport, targets: Seq<CubeSatTarget>, i: int)
    ensures
        r@.satellite_name == r.satellite_name@,
        r@.signal_type_name == r.signal_type_name@,
        r@.max_elevation_deg == r.max_elevation_deg,
        r@.direction == r.direction@,
        r@.frequency_hz == r.frequency_hz,
        r@.pass_time_str == r.pass_time_str@,
        r@.telemetry == opt_telemetry(r.telemetry),
        r@.has_image == r.has_image,
        r@.has_audio == r.has_audio,
        r@.next_pass_info == opt_text(r.next_pass_info),
        opt_report(Some(r)) == Some(r@),
        opt_report(None) is None,
        target_names(targets).len() == targets.len(),
        0 <= i < targets.len() ==> target_names(targets)[i] == plain_name(
            unicode_lower(targets[i].name@),
        ),
{
}

} // verus!
