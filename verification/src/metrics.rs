//! Records of past passes: how they went, by satellite and in all.

use crate::binary64::{
    fixed_text, law_small_integers_are_exact, law_small_products_are_exact,
    law_small_quotients_are_exact, lemma_per_cent, lemma_rate_grows, lemma_zero, of_integer,
    product, quotient, Binary64,
};
use crate::clock::{date_time_text, CivilTime};
use crate::discord::PassStatus;
use crate::engine::DecodeResult;
use crate::orbit::SatellitePass;
use crate::text::{
    align_left, align_right, copy_opt, decimal, digits, has_text, joined,
    law_alignment_pads_with_spaces, left_aligned, lemma_ends_with, lemma_has_across, lemma_has_more,
    lemma_left_begins, lemma_reaches, lemma_right_ends, opt_text, order_texts, push_text,
    right_aligned, text_before, texts, TextOrder,
};
use chrono::{Datelike, Timelike};
use vstd::prelude::*;

verus! {

/// Whether a pass was a success: whether what was received can be looked at.
#[derive(Clone, Copy, Debug, PartialEq, Eq, Structural)]
pub enum PassOutcome {
    /// What was received can be looked at.
    Success,
    /// Nothing came of it.
    Failure,
    /// It cannot be told, as for recorded voice or a recording that was not decoded.
    Unknown,
}

impl PassOutcome {
    /// The outcome that a status stands for.
    pub open spec fn of(status: PassStatus) -> PassOutcome {
        match status {
            PassStatus::ImageDecoded | PassStatus::TelemetryDecoded => PassOutcome::Success,
            PassStatus::WeakSignal | PassStatus::DecodeError => PassOutcome::Failure,
            PassStatus::AudioRecorded | PassStatus::RawPreserved => PassOutcome::Unknown,
        }
    }

    /// The outcome in words.
    pub open spec fn words(self) -> Seq<char> {
        match self {
            PassOutcome::Success => "成功 (中身確認済)"@,
            PassOutcome::Failure => "失敗 (微弱/エラー)"@,
            PassOutcome::Unknown => "保留 (検知あきらめ)"@,
        }
    }

    /// The outcome that a status stands for.
    pub fn from_status(status: PassStatus) -> (r: Self)
        ensures
            r == PassOutcome::of(status),
    {
        match status {
            PassStatus::ImageDecoded | PassStatus::TelemetryDecoded => PassOutcome::Success,
            PassStatus::WeakSignal | PassStatus::DecodeError => PassOutcome::Failure,
            PassStatus::AudioRecorded | PassStatus::RawPreserved => PassOutcome::Unknown,
        }
    }

    /// Whether what was received can be looked at.
    pub fn is_content_viewable(&self) -> (r: bool)
        ensures
            r == (*self == PassOutcome::Success),
    {
        match self {
            PassOutcome::Success => true,
            _ => false,
        }
    }

    /// The outcome in words.
    pub fn label(&self) -> (r: &'static str)
        ensures
            r@ == self.words(),
    {
        match self {
            PassOutcome::Success => "成功 (中身確認済)",
            PassOutcome::Failure => "失敗 (微弱/エラー)",
            PassOutcome::Unknown => "保留 (検知あきらめ)",
        }
    }
}

/// The record of a pass.
#[derive(Clone, Debug)]
pub struct PassMetricRecord {
    /// When it was written, in RFC 3339.
    pub timestamp: String,
    pub satellite: String,
    pub frequency_hz: u64,
    pub signal_type: String,
    pub max_elevation_deg: Binary64,
    pub peak_azimuth_deg: Binary64,
    pub status: PassStatus,
    pub outcome: PassOutcome,
    pub content_viewable: bool,
    pub content_summary: Option<String>,
    pub session_dir: String,
    pub has_image: bool,
    pub has_audio: bool,
    pub has_telemetry_or_text: bool,
    pub duration_secs: Option<u64>,
}

/// The record of a pass, as plain values.
pub struct RecordText {
    pub timestamp: Seq<char>,
    pub satellite: Seq<char>,
    pub frequency_hz: u64,
    pub signal_type: Seq<char>,
    pub max_elevation_deg: Binary64,
    pub peak_azimuth_deg: Binary64,
    pub status: PassStatus,
    pub outcome: PassOutcome,
    pub content_viewable: bool,
    pub content_summary: Option<Seq<char>>,
    pub session_dir: Seq<char>,
    pub has_image: bool,
    pub has_audio: bool,
    pub has_telemetry_or_text: bool,
    pub duration_secs: Option<u64>,
}

impl View for PassMetricRecord {
    type V = RecordText;

    open spec fn view(&self) -> RecordText {
        RecordText {
            timestamp: self.timestamp@,
            satellite: self.satellite@,
            frequency_hz: self.frequency_hz,
            signal_type: self.signal_type@,
            max_elevation_deg: self.max_elevation_deg,
            peak_azimuth_deg: self.peak_azimuth_deg,
            status: self.status,
            outcome: self.outcome,
            content_viewable: self.content_viewable,
            content_summary: opt_text(self.content_summary),
            session_dir: self.session_dir@,
            has_image: self.has_image,
            has_audio: self.has_audio,
            has_telemetry_or_text: self.has_telemetry_or_text,
            duration_secs: self.duration_secs,
        }
    }
}

/// The whole seconds of a pass; none where it ends before it begins.
pub open spec fn pass_seconds(pass: SatellitePass) -> int {
    if pass.los < pass.aos {
        0
    } else {
        (pass.los - pass.aos) / 1000
    }
}

/// The status of a result. One without telemetry is a recording that was kept.
pub open spec fn result_status(result: DecodeResult) -> PassStatus {
    match result.telemetry {
        Some(t) => t.status,
        None => PassStatus::RawPreserved,
    }
}

/// The result tells something beside image and audio.
pub open spec fn result_has_text(result: DecodeResult) -> bool {
    match result.telemetry {
        Some(t) => t.housekeeping@.len() > 0 || t.lines_or_packets is Some,
        None => false,
    }
}

/// The record of a pass.
pub open spec fn record_of(
    pass: SatellitePass,
    result: Result<DecodeResult, String>,
    session_dir: Seq<char>,
    timestamp: Seq<char>,
    image_exists: bool,
    audio_exists: bool,
) -> RecordText {
    let status = match result {
        Ok(res) => result_status(res),
        Err(_) => PassStatus::DecodeError,
    };
    RecordText {
        timestamp,
        satellite: pass.satellite_name@,
        frequency_hz: pass.frequency_hz,
        signal_type: pass.signal_type.display(),
        max_elevation_deg: pass.max_elevation_deg,
        peak_azimuth_deg: pass.peak_azimuth_deg,
        status,
        outcome: PassOutcome::of(status),
        content_viewable: PassOutcome::of(status) == PassOutcome::Success,
        content_summary: match result {
            Ok(res) => opt_text(res.telemetry_summary),
            Err(e) => Some("デコード異常終了: "@ + e@),
        },
        session_dir,
        has_image: result matches Ok(res) && res.image_path is Some && image_exists,
        has_audio: result matches Ok(res) && res.audio_path is Some && audio_exists,
        has_telemetry_or_text: result matches Ok(res) && result_has_text(res),
        duration_secs: Some(pass_seconds(pass) as u64),
    }
}

impl PassMetricRecord {
    /// The record of a pass. `image_exists` and `audio_exists` say whether the files that the
    /// result names are there.
    pub fn from_pass_and_result(
        pass: &SatellitePass,
        result: &Result<DecodeResult, String>,
        session_dir: &str,
        timestamp: &str,
        image_exists: bool,
        audio_exists: bool,
    ) -> (r: Self)
        ensures
            r@ == record_of(
                *pass,
                *result,
                session_dir@,
                timestamp@,
                image_exists,
                audio_exists,
            ),
    {
        let duration: u64 = if pass.los < pass.aos {
            0
        } else {
            ((pass.los as i128 - pass.aos as i128) / 1000) as u64
        };
        let (status, summary, image, audio, text): (
            PassStatus,
            Option<String>,
            bool,
            bool,
            bool,
        ) = match result {
            Ok(res) => {
                let (status, text): (PassStatus, bool) = match &res.telemetry {
                    Some(t) => (
                        t.status,
                        t.housekeeping.len() > 0 || t.lines_or_packets.is_some(),
                    ),
                    None => (PassStatus::RawPreserved, false),
                };
                (
                    status,
                    copy_opt(&res.telemetry_summary),
                    res.image_path.is_some() && image_exists,
                    res.audio_path.is_some() && audio_exists,
                    text,
                )
            },
            Err(e) => {
                let mut t: String = "デコード異常終了: ".to_owned();
                t.append(e.as_str());
                (PassStatus::DecodeError, Some(t), false, false, false)
            },
        };
        let outcome: PassOutcome = PassOutcome::from_status(status);
        PassMetricRecord {
            timestamp: timestamp.to_owned(),
            satellite: pass.satellite_name.as_str().to_owned(),
            frequency_hz: pass.frequency_hz,
            signal_type: pass.signal_type.name().to_owned(),
            max_elevation_deg: pass.max_elevation_deg,
            peak_azimuth_deg: pass.peak_azimuth_deg,
            status,
            outcome,
            content_viewable: outcome.is_content_viewable(),
            content_summary: summary,
            session_dir: session_dir.to_owned(),
            has_image: image,
            has_audio: audio,
            has_telemetry_or_text: text,
            duration_secs: Some(duration),
        }
    }
}

/// How many passes there were, and how they went.
#[derive(Clone, Copy, Debug, PartialEq, Eq, Structural)]
pub struct SatelliteStats {
    pub total: usize,
    pub success: usize,
    pub failure: usize,
    pub unknown: usize,
}

impl Default for SatelliteStats {
    fn default() -> (r: Self)
        ensures
            r == (SatelliteStats { total: 0, success: 0, failure: 0, unknown: 0 }),
    {
        SatelliteStats { total: 0, success: 0, failure: 0, unknown: 0 }
    }
}

/// How many passes there were, and how they went, in all and by satellite.
#[derive(Clone, Debug)]
pub struct PassMetricsSummary {
    pub total_passes: usize,
    pub success_count: usize,
    pub failure_count: usize,
    pub unknown_count: usize,
    /// Per cent of the passes that were a success or a failure.
    pub success_rate: Binary64,
    /// In the order of the names, each once.
    pub satellite_stats: Vec<(String, SatelliteStats)>,
}

/// How many of the records meet a condition.
pub open spec fn count_where(
    records: Seq<PassMetricRecord>,
    keep: spec_fn(PassMetricRecord) -> bool,
) -> nat
    decreases records.len(),
{
    if records.len() == 0 {
        0
    } else {
        count_where(records.drop_last(), keep) + if keep(records.last()) {
            1nat
        } else {
            0nat
        }
    }
}

/// How many of the records have this outcome.
pub open spec fn count_outcome(records: Seq<PassMetricRecord>, outcome: PassOutcome) -> nat {
    count_where(records, |r: PassMetricRecord| r.outcome == outcome)
}

/// How many of the records are of this satellite.
pub open spec fn count_satellite(records: Seq<PassMetricRecord>, name: Seq<char>) -> nat {
    count_where(records, |r: PassMetricRecord| r.satellite@ == name)
}

/// How many of the records are of this satellite and have this outcome.
pub open spec fn count_both(
    records: Seq<PassMetricRecord>,
    name: Seq<char>,
    outcome: PassOutcome,
) -> nat {
    count_where(records, |r: PassMetricRecord| r.satellite@ == name && r.outcome == outcome)
}

/// The numbers hold for this satellite.
pub open spec fn stats_hold(
    records: Seq<PassMetricRecord>,
    name: Seq<char>,
    s: SatelliteStats,
) -> bool {
    &&& s.total == count_satellite(records, name)
    &&& s.success == count_both(records, name, PassOutcome::Success)
    &&& s.failure == count_both(records, name, PassOutcome::Failure)
    &&& s.unknown == count_both(records, name, PassOutcome::Unknown)
}

/// The satellites stand in the order of their names, each once.
pub open spec fn in_name_order(stats: Seq<(String, SatelliteStats)>) -> bool {
    forall|i: int, j: int|
        0 <= i < j < stats.len() ==> text_before((#[trigger] stats[i]).0@, (#[trigger] stats[j]).0@)
}

/// A satellite stands in the list.
pub open spec fn is_listed(stats: Seq<(String, SatelliteStats)>, name: Seq<char>) -> bool {
    exists|i: int| 0 <= i < stats.len() && (#[trigger] stats[i]).0@ == name
}

/// The list gives the numbers of exactly the satellites that have a record.
pub open spec fn stats_of(
    records: Seq<PassMetricRecord>,
    stats: Seq<(String, SatelliteStats)>,
) -> bool {
    &&& in_name_order(stats)
    &&& forall|i: int|
        0 <= i < stats.len() ==> stats_hold(records, (#[trigger] stats[i]).0@, stats[i].1)
            && stats[i].1.total > 0
    &&& forall|k: int|
        0 <= k < records.len() ==> is_listed(stats, (#[trigger] records[k]).satellite@)
}

/// Per cent of the determined passes that were a success.
pub open spec fn rate_of(success: nat, failure: nat) -> Binary64 {
    if success + failure == 0 {
        of_integer(0)
    } else {
        product(quotient(of_integer(success), of_integer(success + failure)), of_integer(100))
    }
}

/// A summary of records.
pub open spec fn is_summary(records: Seq<PassMetricRecord>, s: PassMetricsSummary) -> bool {
    &&& s.total_passes == records.len()
    &&& s.success_count == count_outcome(records, PassOutcome::Success)
    &&& s.failure_count == count_outcome(records, PassOutcome::Failure)
    &&& s.unknown_count == count_outcome(records, PassOutcome::Unknown)
    &&& s.success_rate == rate_of(s.success_count as nat, s.failure_count as nat)
    &&& stats_of(records, s.satellite_stats@)
}

/// Every record has one outcome: the counts of the outcomes add up.
proof fn lemma_outcomes_add_up(records: Seq<PassMetricRecord>)
    ensures
        count_outcome(records, PassOutcome::Success) + count_outcome(records, PassOutcome::Failure)
            + count_outcome(records, PassOutcome::Unknown) == records.len(),
    decreases records.len(),
{
    if records.len() > 0 {
        lemma_outcomes_add_up(records.drop_last());
    }
}

/// The counts of the outcomes of one satellite add up.
proof fn lemma_satellite_adds_up(records: Seq<PassMetricRecord>, name: Seq<char>)
    ensures
        count_both(records, name, PassOutcome::Success) + count_both(
            records,
            name,
            PassOutcome::Failure,
        ) + count_both(records, name, PassOutcome::Unknown) == count_satellite(records, name),
        count_satellite(records, name) <= records.len(),
    decreases records.len(),
{
    if records.len() > 0 {
        lemma_satellite_adds_up(records.drop_last(), name);
    }
}

/// Successes, failures and undetermined passes make up all passes, in all and for each satellite.
pub proof fn law_counts_add_up(records: Seq<PassMetricRecord>, s: PassMetricsSummary)
    requires
        is_summary(records, s),
    ensures
        s.success_count + s.failure_count + s.unknown_count == s.total_passes,
        forall|i: int|
            0 <= i < s.satellite_stats@.len() ==> (
            #[trigger] s.satellite_stats@[i]).1.success + s.satellite_stats@[i].1.failure
                + s.satellite_stats@[i].1.unknown == s.satellite_stats@[i].1.total,
        0 <= s.success_rate.order() <= of_integer(100).order(),
{
    lemma_outcomes_add_up(records);
    assert forall|i: int| 0 <= i < s.satellite_stats@.len() implies (
    #[trigger] s.satellite_stats@[i]).1.success + s.satellite_stats@[i].1.failure
        + s.satellite_stats@[i].1.unknown == s.satellite_stats@[i].1.total by {
        lemma_satellite_adds_up(records, s.satellite_stats@[i].0@);
    }
    let a = s.success_count as nat;
    let b = s.failure_count as nat;
    if a + b > 0 {
        lemma_per_cent(a, a + b);
    }
}

/// The totals of the first `n` satellites together.
pub open spec fn totals_together(stats: Seq<(String, SatelliteStats)>, n: nat) -> nat
    decreases n,
{
    if n == 0 {
        0
    } else {
        totals_together(stats, (n - 1) as nat) + stats[n - 1].1.total as nat
    }
}

/// How many records the first `n` satellites have together.
spec fn records_together(
    records: Seq<PassMetricRecord>,
    stats: Seq<(String, SatelliteStats)>,
    n: nat,
) -> nat
    decreases n,
{
    if n == 0 {
        0
    } else {
        records_together(records, stats, (n - 1) as nat) + count_satellite(
            records,
            stats[n - 1].0@,
        )
    }
}

/// One more record adds one, where its satellite is among the first `n`.
proof fn lemma_records_together(
    records: Seq<PassMetricRecord>,
    stats: Seq<(String, SatelliteStats)>,
    n: nat,
)
    requires
        in_name_order(stats),
        n <= stats.len(),
        records.len() > 0,
    ensures
        records_together(records, stats, n) == records_together(records.drop_last(), stats, n) + (
        if exists|i: int| 0 <= i < n && (#[trigger] stats[i]).0@ == records.last().satellite@ {
            1nat
        } else {
            0nat
        }),
    decreases n,
{
    if n > 0 {
        lemma_records_together(records, stats, (n - 1) as nat);
        let name = records.last().satellite@;
        let found = exists|i: int| 0 <= i < n - 1 && (#[trigger] stats[i]).0@ == name;
        if stats[n - 1].0@ == name {
            if found {
                let i = choose|i: int| 0 <= i < n - 1 && (#[trigger] stats[i]).0@ == name;
                lemma_distinct_names(stats, i, n - 1);
            }
        }
    }
}

/// The satellites in the list have all records together.
proof fn lemma_all_records_listed(
    records: Seq<PassMetricRecord>,
    stats: Seq<(String, SatelliteStats)>,
)
    requires
        in_name_order(stats),
        forall|k: int|
            0 <= k < records.len() ==> is_listed(stats, (#[trigger] records[k]).satellite@),
    ensures
        records_together(records, stats, stats.len()) == records.len(),
    decreases records.len(),
{
    if records.len() == 0 {
        lemma_no_records(records, stats, stats.len());
    } else {
        let front = records.drop_last();
        assert forall|k: int| 0 <= k < front.len() implies is_listed(
            stats,
            (#[trigger] front[k]).satellite@,
        ) by {
            assert(records[k] == front[k]);
        }
        lemma_all_records_listed(front, stats);
        lemma_records_together(records, stats, stats.len());
        assert(is_listed(stats, records[records.len() - 1].satellite@));
    }
}

/// Without records every satellite has none.
proof fn lemma_no_records(
    records: Seq<PassMetricRecord>,
    stats: Seq<(String, SatelliteStats)>,
    n: nat,
)
    requires
        records.len() == 0,
    ensures
        records_together(records, stats, n) == 0,
    decreases n,
{
    if n > 0 {
        lemma_no_records(records, stats, (n - 1) as nat);
    }
}

/// Where the numbers hold, the totals are the records.
proof fn lemma_totals_are_records(
    records: Seq<PassMetricRecord>,
    stats: Seq<(String, SatelliteStats)>,
    n: nat,
)
    requires
        stats_of(records, stats),
        n <= stats.len(),
    ensures
        totals_together(stats, n) == records_together(records, stats, n),
    decreases n,
{
    if n > 0 {
        lemma_totals_are_records(records, stats, (n - 1) as nat);
        assert(stats_hold(records, stats[n - 1].0@, stats[n - 1].1));
    }
}

/// The passes of all satellites together are all passes.
pub proof fn law_satellites_make_up_the_total(
    records: Seq<PassMetricRecord>,
    s: PassMetricsSummary,
)
    requires
        is_summary(records, s),
    ensures
        totals_together(s.satellite_stats@, s.satellite_stats@.len()) == s.total_passes,
{
    lemma_all_records_listed(records, s.satellite_stats@);
    lemma_totals_are_records(records, s.satellite_stats@, s.satellite_stats@.len());
}

/// The numbers after one more record.
fn count_record(s: SatelliteStats, outcome: PassOutcome) -> (r: SatelliteStats)
    requires
        s.total < usize::MAX,
        s.success < usize::MAX,
        s.failure < usize::MAX,
        s.unknown < usize::MAX,
    ensures
        r.total == s.total + 1,
        r.success == s.success + if outcome == PassOutcome::Success {
            1int
        } else {
            0
        },
        r.failure == s.failure + if outcome == PassOutcome::Failure {
            1int
        } else {
            0
        },
        r.unknown == s.unknown + if outcome == PassOutcome::Unknown {
            1int
        } else {
            0
        },
{
    match outcome {
        PassOutcome::Success => SatelliteStats {
            total: s.total + 1,
            success: s.success + 1,
            failure: s.failure,
            unknown: s.unknown,
        },
        PassOutcome::Failure => SatelliteStats {
            total: s.total + 1,
            success: s.success,
            failure: s.failure + 1,
            unknown: s.unknown,
        },
        PassOutcome::Unknown => SatelliteStats {
            total: s.total + 1,
            success: s.success,
            failure: s.failure,
            unknown: s.unknown + 1,
        },
    }
}

/// A satellite without a record among some records counts nothing.
proof fn lemma_unlisted_counts_nothing(records: Seq<PassMetricRecord>, name: Seq<char>)
    requires
        forall|k: int| 0 <= k < records.len() ==> (#[trigger] records[k]).satellite@ != name,
    ensures
        count_satellite(records, name) == 0,
        count_both(records, name, PassOutcome::Success) == 0,
        count_both(records, name, PassOutcome::Failure) == 0,
        count_both(records, name, PassOutcome::Unknown) == 0,
    decreases records.len(),
{
    if records.len() > 0 {
        assert(records[records.len() - 1].satellite@ != name);
        assert forall|k: int| 0 <= k < records.drop_last().len() implies (
        #[trigger] records.drop_last()[k]).satellite@ != name by {
            assert(records[k].satellite@ != name);
        }
        lemma_unlisted_counts_nothing(records.drop_last(), name);
    }
}

/// Adds a record to the numbers of its satellite.
fn add_to_stats(
    stats: &mut Vec<(String, SatelliteStats)>,
    rec: &PassMetricRecord,
    Ghost(seen): Ghost<Seq<PassMetricRecord>>,
)
    requires
        stats_of(seen, old(stats)@),
        seen.len() < usize::MAX,
    ensures
        stats_of(seen.push(*rec), final(stats)@),
{
    let ghost before = stats@;
    let ghost more = seen.push(*rec);
    let name: &str = rec.satellite.as_str();
    assert(more.drop_last() =~= seen);
    let n: usize = stats.len();
    let mut i: usize = 0;
    let mut found: bool = false;
    while i < n
        invariant_except_break
            !found,
        invariant
            stats@ == before,
            n == before.len(),
            i <= n,
            name@ == rec.satellite@,
            forall|j: int| 0 <= j < i ==> text_before((#[trigger] before[j]).0@, name@),
        ensures
            found ==> i < n && before[i as int].0@ == name@,
            !found && i < n ==> text_before(name@, before[i as int].0@),
        decreases n - i,
    {
        match order_texts(stats[i].0.as_str(), name) {
            TextOrder::Before => {
                i = i + 1;
            },
            TextOrder::Same => {
                found = true;
                break;
            },
            TextOrder::After => {
                break;
            },
        }
    }
    proof {
        assert forall|x: Seq<char>| x != name@ implies #[trigger] count_satellite(more, x)
            == count_satellite(seen, x) && count_both(more, x, PassOutcome::Success) == count_both(
            seen,
            x,
            PassOutcome::Success,
        ) && count_both(more, x, PassOutcome::Failure) == count_both(
            seen,
            x,
            PassOutcome::Failure,
        ) && count_both(more, x, PassOutcome::Unknown) == count_both(
            seen,
            x,
            PassOutcome::Unknown,
        ) by {}
        lemma_satellite_adds_up(seen, name@);
    }
    if found {
        let old_stats: SatelliteStats = stats[i].1;
        assert(stats_hold(seen, before[i as int].0@, old_stats));
        let entry: (String, SatelliteStats) = (
            name.to_owned(),
            count_record(old_stats, rec.outcome),
        );
        stats.set(i, entry);
        proof {
            let after = stats@;
            assert forall|a: int, b: int| 0 <= a < b < after.len() implies text_before(
                (#[trigger] after[a]).0@,
                (#[trigger] after[b]).0@,
            ) by {
                assert(text_before(before[a].0@, before[b].0@));
            }
            assert forall|j: int| 0 <= j < after.len() implies stats_hold(
                more,
                (#[trigger] after[j]).0@,
                after[j].1,
            ) && after[j].1.total > 0 by {
                if j != i {
                    assert(stats_hold(seen, before[j].0@, before[j].1));
                    lemma_distinct_names(before, i as int, j);
                    assert(count_satellite(more, after[j].0@) == count_satellite(
                        seen,
                        after[j].0@,
                    ));
                }
            }
            assert forall|k: int| 0 <= k < more.len() implies is_listed(
                after,
                (#[trigger] more[k]).satellite@,
            ) by {
                if k < seen.len() {
                    assert(is_listed(before, seen[k].satellite@));
                    let j = choose|j: int|
                        0 <= j < before.len() && (#[trigger] before[j]).0@ == seen[k].satellite@;
                    assert(after[j].0@ == before[j].0@);
                } else {
                    assert(after[i as int].0@ == name@);
                }
            }
        }
    } else {
        proof {
            assert forall|j: int| 0 <= j < before.len() implies (#[trigger] before[j]).0@
                != name@ by {
                crate::text::lemma_text_before_irreflexive(name@);
                if j < i {
                    assert(text_before(before[j].0@, name@));
                } else if j > i {
                    assert(text_before(before[i as int].0@, before[j].0@));
                    crate::text::lemma_text_before_transitive(
                        name@,
                        before[i as int].0@,
                        before[j].0@,
                    );
                }
            }
            assert forall|k: int| 0 <= k < seen.len() implies (#[trigger] seen[k]).satellite@
                != name@ by {
                assert(is_listed(before, seen[k].satellite@));
            }
            lemma_unlisted_counts_nothing(seen, name@);
        }
        let fresh: SatelliteStats = SatelliteStats {
            total: 0,
            success: 0,
            failure: 0,
            unknown: 0,
        };
        let entry: (String, SatelliteStats) = (name.to_owned(), count_record(fresh, rec.outcome));
        stats.insert(i, entry);
        proof {
            let after = stats@;
            assert forall|a: int, b: int| 0 <= a < b < after.len() implies text_before(
                (#[trigger] after[a]).0@,
                (#[trigger] after[b]).0@,
            ) by {
                let x = if a < i {
                    a
                } else {
                    a - 1
                };
                let y = if b < i {
                    b
                } else {
                    b - 1
                };
                if a != i && b != i {
                    assert(text_before(before[x].0@, before[y].0@));
                } else if a == i {
                    if y > i {
                        assert(text_before(before[i as int].0@, before[y].0@));
                        crate::text::lemma_text_before_transitive(
                            name@,
                            before[i as int].0@,
                            before[y].0@,
                        );
                    }
                } else {
                    assert(text_before(before[x].0@, name@));
                }
            }
            assert forall|j: int| 0 <= j < after.len() implies stats_hold(
                more,
                (#[trigger] after[j]).0@,
                after[j].1,
            ) && after[j].1.total > 0 by {
                if j != i {
                    let x = if j < i {
                        j
                    } else {
                        j - 1
                    };
                    assert(after[j] == before[x]);
                    assert(stats_hold(seen, before[x].0@, before[x].1));
                    assert(count_satellite(more, after[j].0@) == count_satellite(
                        seen,
                        after[j].0@,
                    ));
                }
            }
            assert forall|k: int| 0 <= k < more.len() implies is_listed(
                after,
                (#[trigger] more[k]).satellite@,
            ) by {
                if k < seen.len() {
                    assert(is_listed(before, seen[k].satellite@));
                    let j = choose|j: int|
                        0 <= j < before.len() && (#[trigger] before[j]).0@ == seen[k].satellite@;
                    let z = if j < i {
                        j
                    } else {
                        j + 1
                    };
                    assert(after[z] == before[j]);
                } else {
                    assert(after[i as int].0@ == name@);
                }
            }
        }
    }
}

/// Names in order are distinct.
proof fn lemma_distinct_names(stats: Seq<(String, SatelliteStats)>, i: int, j: int)
    requires
        in_name_order(stats),
        0 <= i < stats.len(),
        0 <= j < stats.len(),
        i != j,
    ensures
        stats[i].0@ != stats[j].0@,
{
    crate::text::lemma_text_before_irreflexive(stats[i].0@);
    if i < j {
        assert(text_before(stats[i].0@, stats[j].0@));
    } else {
        assert(text_before(stats[j].0@, stats[i].0@));
    }
}

/// The record file of the station.
#[derive(Clone, Debug)]
pub struct MetricsCollector {
    pub file_path: String,
}

/// The date, the time of day and the nanoseconds of the second that a timestamp in RFC 3339 names,
/// in its own offset.
pub uninterp spec fn rfc3339_time(text: Seq<char>) -> Option<(CivilTime, u32)>;

/// Reads a timestamp.
///
/// Calls `chrono::DateTime::parse_from_rfc3339` and reads the fields of the result in its own
/// offset. What comes out is a function of the text, named by `rfc3339_time`; there is none where
/// the text does not parse. The second is at most 59: in a leap second the nanoseconds are a
/// thousand million or more, below two thousand million.
#[verifier::external_body]
fn read_rfc3339(text: &str) -> (r: Option<(CivilTime, u32)>)
    ensures
        r == rfc3339_time(text@),
        r matches Some(t) ==> t.0.second < 60 && t.1 < 2_000_000_000,
{
    let t = chrono::DateTime::parse_from_rfc3339(text).ok()?;
    let c = CivilTime {
        year: t.year(),
        month: t.month(),
        day: t.day(),
        hour: t.hour(),
        minute: t.minute(),
        second: t.second(),
    };
    Some((c, t.nanosecond()))
}

/// A time as it is shown: a leap second is second 60.
pub open spec fn with_leap_second(t: Option<(CivilTime, u32)>) -> Option<CivilTime> {
    match t {
        Some((c, nanos)) => Some(
            CivilTime { second: (c.second + nanos / 1_000_000_000) as u32, ..c },
        ),
        None => None,
    }
}

/// A time as it is shown: a leap second is second 60.
pub fn shown_clock(t: Option<(CivilTime, u32)>) -> (r: Option<CivilTime>)
    requires
        t matches Some(x) ==> x.0.second < 60,
    ensures
        r == with_leap_second(t),
{
    match t {
        Some((c, nanos)) => Some(CivilTime { second: c.second + nanos / 1_000_000_000, ..c }),
        None => None,
    }
}

/// The last `limit` of the records, or all where there are fewer.
pub open spec fn last_of(records: Seq<PassMetricRecord>, limit: nat) -> Seq<PassMetricRecord> {
    if records.len() <= limit {
        records
    } else {
        records.skip(records.len() - limit)
    }
}

/// Per cent of the determined passes that were a success.
fn success_rate(success: usize, failure: usize) -> (r: Binary64)
    ensures
        r == rate_of(success as nat, failure as nat),
{
    let d: u128 = success as u128 + failure as u128;
    if d == 0 {
        return Binary64::integer(0);
    }
    Binary64::integer(success as u128).over(Binary64::integer(d)).times(Binary64::integer(100))
}

/// A rate with one place behind the point.
pub open spec fn rate_text(success: nat, failure: nat) -> Seq<char> {
    if success + failure == 0 {
        "-"@
    } else {
        fixed_text(rate_of(success, failure), 1) + "%"@
    }
}

/// A long line across the report.
pub open spec fn double_rule() -> Seq<char> {
    "====================================================================================================================="@
}

/// A line between the parts of the report.
pub open spec fn single_rule() -> Seq<char> {
    "---------------------------------------------------------------------------------------------------------------------"@
}

/// The line of a satellite.
pub open spec fn stats_line(entry: (String, SatelliteStats)) -> Seq<char> {
    left_aligned(entry.0@, 18) + " | "@ + right_aligned(digits(entry.1.total as nat), 8) + " | "@
        + right_aligned(digits(entry.1.success as nat), 8) + " | "@ + right_aligned(
        digits(entry.1.failure as nat),
        8,
    ) + " | "@ + right_aligned(digits(entry.1.unknown as nat), 8) + " | "@ + right_aligned(
        rate_text(entry.1.success as nat, entry.1.failure as nat),
        8,
    )
}

/// The lines of the satellites.
pub open spec fn stats_lines(stats: Seq<(String, SatelliteStats)>) -> Seq<Seq<char>> {
    if stats.len() == 0 {
        seq!["(記録された観測データはまだありません)"@]
    } else {
        Seq::new(stats.len(), |i: int| stats_line(stats[i]))
    }
}

/// The time in the line of a record: as the timestamp gives it, or the timestamp itself where it
/// cannot be read.
pub open spec fn shown_time(timestamp: Seq<char>, parsed: Option<CivilTime>) -> Seq<char> {
    match parsed {
        Some(c) => date_time_text(c),
        None => timestamp,
    }
}

/// The line of a record.
pub open spec fn record_line(rec: RecordText, parsed: Option<CivilTime>) -> Seq<char> {
    left_aligned(shown_time(rec.timestamp, parsed), 20) + " | "@ + left_aligned(rec.satellite, 15)
        + " | "@ + left_aligned(rec.signal_type, 16) + " | "@ + right_aligned(
        fixed_text(rec.max_elevation_deg, 1),
        6,
    ) + "° | "@ + left_aligned(rec.outcome.words(), 16) + " | "@ + left_aligned(
        match rec.content_summary {
            Some(s) => s,
            None => "-"@,
        },
        30,
    )
}

/// The lines of the latest records, the latest first.
pub open spec fn recent_lines(recent: Seq<PassMetricRecord>) -> Seq<Seq<char>> {
    if recent.len() == 0 {
        seq!["(履歴データはありません)"@]
    } else {
        Seq::new(
            recent.len(),
            |i: int|
                record_line(
                    recent[recent.len() - 1 - i]@,
                    with_leap_second(rfc3339_time(recent[recent.len() - 1 - i].timestamp@)),
                ),
        )
    }
}

/// The line of the counts.
pub open spec fn totals_line(s: PassMetricsSummary) -> Seq<char> {
    "総観測パス数: "@ + left_aligned(digits(s.total_passes as nat), 4)
        + " | 成功 (中身確認済): "@ + left_aligned(digits(s.success_count as nat), 4)
        + " | 失敗 (微弱/エラー): "@ + left_aligned(digits(s.failure_count as nat), 4)
        + " | 保留 (検知あきらめ): "@ + left_aligned(digits(s.unknown_count as nat), 4)
        + " | 成功率: "@ + fixed_text(s.success_rate, 1) + "%"@
}

/// The headings of the list of satellites.
pub open spec fn stats_heading() -> Seq<char> {
    left_aligned("衛星名"@, 18) + " | "@ + left_aligned("総観測"@, 8) + " | "@ + left_aligned(
        "成功"@,
        8,
    ) + " | "@ + left_aligned("失敗"@, 8) + " | "@ + left_aligned("保留"@, 8) + " | "@
        + left_aligned("成功率"@, 8)
}

/// The headings of the list of records.
pub open spec fn recent_heading() -> Seq<char> {
    left_aligned("観測日時 (JST)"@, 20) + " | "@ + left_aligned("衛星名"@, 15) + " | "@
        + left_aligned("信号方式"@, 16) + " | "@ + left_aligned("最大仰角"@, 8) + " | "@
        + left_aligned("成否判定"@, 16) + " | "@ + left_aligned("データ内容要約"@, 30)
}

/// The lines of the report.
pub open spec fn report_lines(
    s: PassMetricsSummary,
    recent: Seq<PassMetricRecord>,
) -> Seq<Seq<char>> {
    seq![
        Seq::<char>::empty(),
        double_rule(),
        "📊 地上局 衛星通過成否メトリクス 集計レポート"@,
        double_rule(),
        totals_line(s),
        single_rule(),
        "🛰️  衛星別観測実績:"@,
        stats_heading(),
        single_rule(),
    ] + stats_lines(s.satellite_stats@) + seq![
        single_rule(),
        "🕒 直近の観測履歴 (最大 "@ + digits(recent.len()) + " 件):"@,
        recent_heading(),
        single_rule(),
    ] + recent_lines(recent) + seq![double_rule(), Seq::<char>::empty()]
}

/// Appends a column that is filled up with spaces behind, and the bar behind it.
fn append_left(line: &mut String, s: &str, width: usize, bar: &str)
    ensures
        final(line)@ == old(line)@ + left_aligned(s@, width as nat) + bar@,
{
    line.append(align_left(s, width).as_str());
    line.append(bar);
}

/// Appends a column that is filled up with spaces before, and the bar behind it.
fn append_right(line: &mut String, s: &str, width: usize, bar: &str)
    ensures
        final(line)@ == old(line)@ + right_aligned(s@, width as nat) + bar@,
{
    line.append(align_right(s, width).as_str());
    line.append(bar);
}

/// The line of a satellite.
fn format_stats(name: &String, stats: &SatelliteStats, Ghost(entry): Ghost<(String, SatelliteStats)>) -> (r:
    String)
    requires
        entry.0@ == name@,
        entry.1 == *stats,
    ensures
        r@ == stats_line(entry),
{
    let rate: String = if stats.success == 0 && stats.failure == 0 {
        "-".to_owned()
    } else {
        let mut t: String = success_rate(stats.success, stats.failure).fixed(1);
        t.append("%");
        t
    };
    let mut line: String = align_left(name.as_str(), 18);
    line.append(" | ");
    append_right(&mut line, decimal(stats.total as u64).as_str(), 8, " | ");
    append_right(&mut line, decimal(stats.success as u64).as_str(), 8, " | ");
    append_right(&mut line, decimal(stats.failure as u64).as_str(), 8, " | ");
    append_right(&mut line, decimal(stats.unknown as u64).as_str(), 8, " | ");
    line.append(align_right(rate.as_str(), 8).as_str());
    line
}

/// The line of a record, with its time as it was read.
pub fn format_record(rec: &PassMetricRecord, parsed: Option<CivilTime>) -> (r: String)
    ensures
        r@ == record_line(rec@, parsed),
{
    let time: String = match parsed {
        Some(c) => c.format_date_time(),
        None => rec.timestamp.as_str().to_owned(),
    };
    let summary: &str = match &rec.content_summary {
        Some(s) => s.as_str(),
        None => "-",
    };
    let mut line: String = align_left(time.as_str(), 20);
    line.append(" | ");
    append_left(&mut line, rec.satellite.as_str(), 15, " | ");
    append_left(&mut line, rec.signal_type.as_str(), 16, " | ");
    append_right(&mut line, rec.max_elevation_deg.fixed(1).as_str(), 6, "° | ");
    append_left(&mut line, rec.outcome.label(), 16, " | ");
    line.append(align_left(summary, 30).as_str());
    line
}

impl MetricsCollector {
    /// A collector for this file.
    pub fn new(file_path: String) -> (r: Self)
        ensures
            r.file_path == file_path,
    {
        MetricsCollector { file_path }
    }

    /// The summary of the records.
    pub fn get_summary(records: &[PassMetricRecord]) -> (r: PassMetricsSummary)
        ensures
            is_summary(records@, r),
    {
        let mut success: usize = 0;
        let mut failure: usize = 0;
        let mut unknown: usize = 0;
        let mut stats: Vec<(String, SatelliteStats)> = Vec::new();
        let n: usize = records.len();
        let mut i: usize = 0;
        assert(records@.take(0) =~= Seq::<PassMetricRecord>::empty());
        while i < n
            invariant
                n == records@.len(),
                i <= n,
                success == count_outcome(records@.take(i as int), PassOutcome::Success),
                failure == count_outcome(records@.take(i as int), PassOutcome::Failure),
                unknown == count_outcome(records@.take(i as int), PassOutcome::Unknown),
                success + failure + unknown == i,
                stats_of(records@.take(i as int), stats@),
            decreases n - i,
        {
            let rec: &PassMetricRecord = &records[i];
            assert(records@.take(i + 1).drop_last() =~= records@.take(i as int));
            assert(records@.take(i + 1) =~= records@.take(i as int).push(*rec));
            match rec.outcome {
                PassOutcome::Success => {
                    success = success + 1;
                },
                PassOutcome::Failure => {
                    failure = failure + 1;
                },
                PassOutcome::Unknown => {
                    unknown = unknown + 1;
                },
            }
            add_to_stats(&mut stats, rec, Ghost(records@.take(i as int)));
            i = i + 1;
        }
        assert(records@.take(n as int) =~= records@);
        PassMetricsSummary {
            total_passes: n,
            success_count: success,
            failure_count: failure,
            unknown_count: unknown,
            success_rate: success_rate(success, failure),
            satellite_stats: stats,
        }
    }

    /// The last `limit` of the records.
    pub fn read_recent_records(all: Vec<PassMetricRecord>, limit: usize) -> (r: Vec<
        PassMetricRecord,
    >)
        ensures
            r@ == last_of(all@, limit as nat),
    {
        let n: usize = all.len();
        let mut all: Vec<PassMetricRecord> = all;
        if n <= limit {
            all
        } else {
            let r: Vec<PassMetricRecord> = all.split_off(n - limit);
            r
        }
    }

    /// The lines of the report.
    pub fn print_metrics_report(summary: &PassMetricsSummary, recent: &[PassMetricRecord]) -> (r:
        Vec<String>)
        ensures
            texts(r@) == report_lines(*summary, recent@),
    {
        let rule: &str =
            "=====================================================================================================================";
        let bar: &str =
            "---------------------------------------------------------------------------------------------------------------------";
        let mut r: Vec<String> = Vec::new();
        proof {
            reveal_strlit("");
            assert(""@ =~= Seq::<char>::empty());
        }
        push_text(&mut r, "");
        push_text(&mut r, rule);
        push_text(&mut r, "📊 地上局 衛星通過成否メトリクス 集計レポート");
        push_text(&mut r, rule);
        let mut line: String = "総観測パス数: ".to_owned();
        append_left(
            &mut line,
            decimal(summary.total_passes as u64).as_str(),
            4,
            " | 成功 (中身確認済): ",
        );
        append_left(
            &mut line,
            decimal(summary.success_count as u64).as_str(),
            4,
            " | 失敗 (微弱/エラー): ",
        );
        append_left(
            &mut line,
            decimal(summary.failure_count as u64).as_str(),
            4,
            " | 保留 (検知あきらめ): ",
        );
        append_left(&mut line, decimal(summary.unknown_count as u64).as_str(), 4, " | 成功率: ");
        line.append(summary.success_rate.fixed(1).as_str());
        line.append("%");
        push_text(&mut r, line.as_str());
        push_text(&mut r, bar);
        push_text(&mut r, "🛰️  衛星別観測実績:");
        let mut line: String = align_left("衛星名", 18);
        line.append(" | ");
        append_left(&mut line, "総観測", 8, " | ");
        append_left(&mut line, "成功", 8, " | ");
        append_left(&mut line, "失敗", 8, " | ");
        append_left(&mut line, "保留", 8, " | ");
        line.append(align_left("成功率", 8).as_str());
        push_text(&mut r, line.as_str());
        push_text(&mut r, bar);
        let ghost head = texts(r@);
        assert(head =~= seq![
            Seq::<char>::empty(),
            double_rule(),
            "📊 地上局 衛星通過成否メトリクス 集計レポート"@,
            double_rule(),
            totals_line(*summary),
            single_rule(),
            "🛰️  衛星別観測実績:"@,
            stats_heading(),
            single_rule(),
        ]);
        let ghost stats = summary.satellite_stats@;
        let n: usize = summary.satellite_stats.len();
        if n == 0 {
            push_text(&mut r, "(記録された観測データはまだありません)");
            assert(texts(r@) =~= head + stats_lines(stats));
        } else {
            let mut i: usize = 0;
            assert(texts(r@) =~= head + Seq::new(0, |k: int| stats_line(stats[k])));
            while i < n
                invariant
                    stats == summary.satellite_stats@,
                    n == stats.len(),
                    i <= n,
                    texts(r@) == head + Seq::new(i as nat, |k: int| stats_line(stats[k])),
                decreases n - i,
            {
                let row: String = format_stats(
                    &summary.satellite_stats[i].0,
                    &summary.satellite_stats[i].1,
                    Ghost(stats[i as int]),
                );
                push_text(&mut r, row.as_str());
                i = i + 1;
                assert(texts(r@) =~= head + Seq::new(i as nat, |k: int| stats_line(stats[k])));
            }
        }
        let ghost upper = texts(r@);
        assert(upper =~= head + stats_lines(stats));
        push_text(&mut r, bar);
        let mut line: String = "🕒 直近の観測履歴 (最大 ".to_owned();
        line.append(decimal(recent.len() as u64).as_str());
        line.append(" 件):");
        push_text(&mut r, line.as_str());
        let mut line: String = align_left("観測日時 (JST)", 20);
        line.append(" | ");
        append_left(&mut line, "衛星名", 15, " | ");
        append_left(&mut line, "信号方式", 16, " | ");
        append_left(&mut line, "最大仰角", 8, " | ");
        append_left(&mut line, "成否判定", 16, " | ");
        line.append(align_left("データ内容要約", 30).as_str());
        push_text(&mut r, line.as_str());
        push_text(&mut r, bar);
        let ghost middle = texts(r@);
        assert(middle =~= upper + seq![
            single_rule(),
            "🕒 直近の観測履歴 (最大 "@ + digits(recent@.len()) + " 件):"@,
            recent_heading(),
            single_rule(),
        ]);
        let m: usize = recent.len();
        if m == 0 {
            push_text(&mut r, "(履歴データはありません)");
            assert(texts(r@) =~= middle + recent_lines(recent@));
        } else {
            let ghost rows = recent_lines(recent@);
            let mut i: usize = 0;
            assert(texts(r@) =~= middle + rows.take(0));
            while i < m
                invariant
                    m == recent@.len(),
                    m > 0,
                    rows == recent_lines(recent@),
                    i <= m,
                    texts(r@) == middle + rows.take(i as int),
                decreases m - i,
            {
                let rec: &PassMetricRecord = &recent[m - 1 - i];
                let parsed: Option<CivilTime> = shown_clock(read_rfc3339(rec.timestamp.as_str()));
                let row: String = format_record(rec, parsed);
                push_text(&mut r, row.as_str());
                assert(rows[i as int] == row@);
                i = i + 1;
                assert(texts(r@) =~= middle + rows.take(i as int));
            }
            assert(rows.take(m as int) =~= rows);
        }
        let ghost lower = texts(r@);
        push_text(&mut r, rule);
        push_text(&mut r, "");
        assert(texts(r@) =~= lower + seq![double_rule(), Seq::<char>::empty()]);
        r
    }
}

/// A pass is a success where what was received can be looked at, an image or telemetry; a failure
/// where the signal was weak or decoding failed; and else it cannot be told.
pub proof fn law_outcomes_go_by_what_can_be_seen(status: PassStatus)
    ensures
        PassOutcome::of(status) == PassOutcome::Success <==> status == PassStatus::ImageDecoded
            || status == PassStatus::TelemetryDecoded,
        PassOutcome::of(status) == PassOutcome::Failure <==> status == PassStatus::WeakSignal
            || status == PassStatus::DecodeError,
        PassOutcome::of(status) == PassOutcome::Unknown <==> status == PassStatus::AudioRecorded
            || status == PassStatus::RawPreserved,
{
}

/// The record of a pass tells of that pass and its result: who, on what frequency, how high and
/// where, how it went and for how long; a file counts only where the result names it and it is
/// there, and a failed decoding is on record as an error with its reason.
pub proof fn law_records_tell_of_their_pass(
    pass: SatellitePass,
    result: Result<DecodeResult, String>,
    session_dir: Seq<char>,
    timestamp: Seq<char>,
    image_exists: bool,
    audio_exists: bool,
)
    ensures
        ({
            let r = record_of(
                pass,
                result,
                session_dir,
                timestamp,
                image_exists,
                audio_exists,
            );
            &&& r.timestamp == timestamp
            &&& r.satellite == pass.satellite_name@
            &&& r.frequency_hz == pass.frequency_hz
            &&& r.signal_type == pass.signal_type.display()
            &&& r.max_elevation_deg == pass.max_elevation_deg
            &&& r.peak_azimuth_deg == pass.peak_azimuth_deg
            &&& r.session_dir == session_dir
            &&& r.outcome == PassOutcome::of(r.status)
            &&& r.content_viewable <==> r.status == PassStatus::ImageDecoded || r.status
                == PassStatus::TelemetryDecoded
            &&& r.has_image <==> image_exists && result is Ok && result->Ok_0.image_path is Some
            &&& r.has_audio <==> audio_exists && result is Ok && result->Ok_0.audio_path is Some
            &&& result is Ok && result->Ok_0.telemetry is Some ==> r.status
                == result->Ok_0.telemetry->0.status
            &&& result is Ok && result->Ok_0.telemetry is None ==> r.status
                == PassStatus::RawPreserved
            &&& r.has_telemetry_or_text <==> result is Ok && result->Ok_0.telemetry is Some && (
            result->Ok_0.telemetry->0.housekeeping@.len() > 0
                || result->Ok_0.telemetry->0.lines_or_packets is Some)
            &&& result is Ok ==> r.content_summary == opt_text(result->Ok_0.telemetry_summary)
            &&& result is Err ==> r.status == PassStatus::DecodeError && r.outcome
                == PassOutcome::Failure && result->Err_0@.is_suffix_of(r.content_summary->0)
            &&& pass.aos <= pass.los ==> (r.duration_secs matches Some(secs) && secs * 1000
                <= pass.los - pass.aos < secs * 1000 + 1000)
            &&& pass.aos > pass.los ==> r.duration_secs == Some(0u64)
        }),
{
    if let Err(e) = result {
        let text = "デコード異常終了: "@ + e@;
        assert(text.subrange(text.len() - e@.len(), text.len() as int) =~= e@);
    }
}

/// One more record counts once: under its outcome, its satellite, and nowhere else.
pub proof fn law_one_more_record_counts_once(
    records: Seq<PassMetricRecord>,
    r: PassMetricRecord,
    name: Seq<char>,
    outcome: PassOutcome,
)
    ensures
        count_outcome(records.push(r), outcome) == count_outcome(records, outcome) + (if r.outcome
            == outcome {
            1int
        } else {
            0
        }),
        count_satellite(records.push(r), name) == count_satellite(records, name) + (
        if r.satellite@ == name {
            1int
        } else {
            0
        }),
        count_both(records.push(r), name, outcome) == count_both(records, name, outcome) + (
        if r.satellite@ == name && r.outcome == outcome {
            1int
        } else {
            0
        }),
        count_outcome(Seq::empty(), outcome) == 0,
        count_satellite(Seq::empty(), name) == 0,
        count_both(Seq::empty(), name, outcome) == 0,
{
    assert(records.push(r).drop_last() =~= records);
}

/// A summary counts what there is: its numbers are those of the records, its satellites are those
/// that have a record, in the order of their names, and the rate is that of the determined passes.
pub proof fn law_summary_counts_the_records(records: Seq<PassMetricRecord>, s: PassMetricsSummary)
    requires
        is_summary(records, s),
    ensures
        s.total_passes == records.len(),
        s.success_count == count_outcome(records, PassOutcome::Success),
        s.failure_count == count_outcome(records, PassOutcome::Failure),
        s.unknown_count == count_outcome(records, PassOutcome::Unknown),
        forall|i: int|
            0 <= i < s.satellite_stats@.len() ==> {
                let entry = #[trigger] s.satellite_stats@[i];
                &&& entry.1.total == count_satellite(records, entry.0@)
                &&& entry.1.success == count_both(records, entry.0@, PassOutcome::Success)
                &&& entry.1.failure == count_both(records, entry.0@, PassOutcome::Failure)
                &&& entry.1.unknown == count_both(records, entry.0@, PassOutcome::Unknown)
                &&& entry.1.total > 0
            },
        forall|k: int|
            0 <= k < records.len() ==> exists|i: int|
                0 <= i < s.satellite_stats@.len() && (#[trigger] s.satellite_stats@[i]).0@ == (
                #[trigger] records[k]).satellite@,
        forall|i: int, j: int|
            0 <= i < j < s.satellite_stats@.len() ==> text_before(
                (#[trigger] s.satellite_stats@[i]).0@,
                (#[trigger] s.satellite_stats@[j]).0@,
            ),
{
    assert forall|k: int| 0 <= k < records.len() implies exists|i: int|
        0 <= i < s.satellite_stats@.len() && (#[trigger] s.satellite_stats@[i]).0@ == (
        #[trigger] records[k]).satellite@ by {
        assert(is_listed(s.satellite_stats@, records[k].satellite@));
    }
}

/// The rate is 100 where every determined pass was a success, and 0 where none was or none is
/// determined; another success in the place of a failure never lowers it.
pub proof fn law_rate_goes_from_none_to_all(success: nat, failure: nat)
    requires
        success + failure < 0x20_0000_0000_0000,
    ensures
        failure == 0 && success > 0 ==> rate_of(success, failure) == of_integer(100),
        success == 0 ==> rate_of(success, failure).place() == 0,
        failure > 0 ==> rate_of(success, failure).place() <= rate_of(
            success + 1,
            (failure - 1) as nat,
        ).place(),
{
    if failure == 0 && success > 0 {
        assert(1 * success == success);
        law_small_quotients_are_exact(1, success);
        law_small_products_are_exact(1, 100);
    }
    if success == 0 && failure > 0 {
        assert(0 * failure == 0);
        law_small_quotients_are_exact(0, failure);
        law_small_products_are_exact(0, 100);
        law_small_integers_are_exact(0);
    }
    if success == 0 {
        lemma_zero();
    }
    if failure > 0 {
        lemma_rate_grows(success, (success + 1) as nat, (success + failure) as nat);
    }
}

/// The latest records are the last of all, as many as asked for where there are so many, in their
/// order.
pub proof fn law_recent_records_are_the_last(records: Seq<PassMetricRecord>, limit: nat)
    ensures
        last_of(records, limit).is_suffix_of(records),
        last_of(records, limit).len() == if records.len() < limit {
            records.len()
        } else {
            limit
        },
{
    let r = last_of(records, limit);
    assert(records.subrange(records.len() - r.len(), records.len() as int) =~= r);
}

/// The line of a satellite shows its name and then its numbers in columns: all passes, successes,
/// failures, undetermined ones, and the rate.
pub proof fn law_stats_line_shows_the_numbers(entry: (String, SatelliteStats)) -> (columns: Seq<
    Seq<char>,
>)
    ensures
        columns.len() == 6,
        joined(columns, " | "@) == stats_line(entry),
        entry.0@.is_prefix_of(columns[0]),
        digits(entry.1.total as nat).is_suffix_of(columns[1]),
        digits(entry.1.success as nat).is_suffix_of(columns[2]),
        digits(entry.1.failure as nat).is_suffix_of(columns[3]),
        digits(entry.1.unknown as nat).is_suffix_of(columns[4]),
        entry.1.success + entry.1.failure > 0 ==> (fixed_text(
            rate_of(entry.1.success as nat, entry.1.failure as nat),
            1,
        ) + "%"@).is_suffix_of(columns[5]),
        entry.1.success + entry.1.failure == 0 ==> "-"@.is_suffix_of(columns[5]),
{
    let bar = " | "@;
    let rate = rate_text(entry.1.success as nat, entry.1.failure as nat);
    let c0 = left_aligned(entry.0@, 18);
    let c1 = right_aligned(digits(entry.1.total as nat), 8);
    let c2 = right_aligned(digits(entry.1.success as nat), 8);
    let c3 = right_aligned(digits(entry.1.failure as nat), 8);
    let c4 = right_aligned(digits(entry.1.unknown as nat), 8);
    let c5 = right_aligned(rate, 8);
    let columns = seq![c0, c1, c2, c3, c4, c5];
    lemma_six_columns(columns, bar);
    law_alignment_pads_with_spaces(entry.0@, 18);
    assert(c0.subrange(0, entry.0@.len() as int) =~= entry.0@);
    lemma_right_ends(digits(entry.1.total as nat), 8);
    lemma_right_ends(digits(entry.1.success as nat), 8);
    lemma_right_ends(digits(entry.1.failure as nat), 8);
    lemma_right_ends(digits(entry.1.unknown as nat), 8);
    lemma_right_ends(rate, 8);
    columns
}

/// Six columns with a bar between them.
proof fn lemma_six_columns(c: Seq<Seq<char>>, bar: Seq<char>)
    requires
        c.len() == 6,
    ensures
        joined(c, bar) == c[0] + bar + c[1] + bar + c[2] + bar + c[3] + bar + c[4] + bar + c[5],
{
    reveal_with_fuel(joined, 7);
    let d5 = c.drop_last();
    let d4 = d5.drop_last();
    let d3 = d4.drop_last();
    let d2 = d3.drop_last();
    let d1 = d2.drop_last();
    assert(d1[0] == c[0] && d2[1] == c[1] && d3[2] == c[2] && d4[3] == c[3] && d5[4] == c[4]);
}

/// The line of a record shows when it was, of which satellite, its signal, how high it came, how it
/// went, and what came of it, in this order.
pub proof fn law_record_line_shows_the_record(rec: RecordText, parsed: Option<CivilTime>)
    ensures
        ({
            let line = record_line(rec, parsed);
            &&& (match parsed {
                Some(c) => date_time_text(c),
                None => rec.timestamp,
            }).is_prefix_of(line)
            &&& has_text(line, " | "@ + rec.satellite)
            &&& has_text(line, " | "@ + rec.signal_type)
            &&& has_text(line, fixed_text(rec.max_elevation_deg, 1) + "°"@)
            &&& has_text(line, " | "@ + rec.outcome.words())
            &&& rec.content_summary matches Some(s) ==> has_text(line, " | "@ + s)
        }),
{
    let bar = " | "@;
    let time = shown_time(rec.timestamp, parsed);
    let el = fixed_text(rec.max_elevation_deg, 1);
    let degrees = "° | "@;
    let words = rec.outcome.words();
    let summary = match rec.content_summary {
        Some(s) => s,
        None => "-"@,
    };
    reveal_strlit("° | ");
    reveal_strlit("°");
    reveal_strlit(" | ");
    let a = left_aligned(time, 20);
    let b = left_aligned(rec.satellite, 15);
    let c = left_aligned(rec.signal_type, 16);
    let d = right_aligned(el, 6);
    let e = left_aligned(words, 16);
    let f = left_aligned(summary, 30);
    let to_b = a + bar + b;
    let to_c = to_b + bar + c;
    let to_d = to_c + bar + d;
    let to_e = to_d + degrees + e;
    let line = to_e + bar + f;
    lemma_left_begins(time, 20);
    lemma_left_begins(rec.satellite, 15);
    lemma_left_begins(rec.signal_type, 16);
    lemma_right_ends(el, 6);
    lemma_left_begins(words, 16);
    lemma_left_begins(summary, 30);
    lemma_ends_with(bar, bar);
    lemma_ends_with(degrees, bar);
    assert("°"@.is_prefix_of(degrees)) by {
        assert(degrees.subrange(0, 1) =~= "°"@);
    }
    lemma_has_across(a, bar, bar, b, rec.satellite);
    lemma_has_across(to_b, bar, bar, c, rec.signal_type);
    lemma_has_across(to_c + bar, d, el, degrees, "°"@);
    lemma_has_across(to_d, degrees, bar, e, words);
    lemma_has_across(to_e, bar, bar, f, summary);
    lemma_reaches(to_b, bar, c, bar + rec.satellite);
    lemma_reaches(to_c, bar, d, bar + rec.satellite);
    lemma_reaches(to_d, degrees, e, bar + rec.satellite);
    lemma_reaches(to_e, bar, f, bar + rec.satellite);
    lemma_reaches(to_c, bar, d, bar + rec.signal_type);
    lemma_reaches(to_d, degrees, e, bar + rec.signal_type);
    lemma_reaches(to_e, bar, f, bar + rec.signal_type);
    assert(to_d + degrees == to_c + bar + d + degrees);
    lemma_has_more(to_d + degrees, e, el + "°"@);
    lemma_reaches(to_e, bar, f, el + "°"@);
    lemma_reaches(to_e, bar, f, bar + words);
    assert(time.is_prefix_of(line)) by {
        assert(line.subrange(0, time.len() as int) =~= a.subrange(0, time.len() as int));
    }
}

/// The latest record comes first, the earliest of those shown last.
pub proof fn law_latest_record_comes_first(recent: Seq<PassMetricRecord>)
    requires
        recent.len() > 0,
    ensures
        recent_lines(recent).len() == recent.len(),
        recent_lines(recent)[0] == record_line(
            recent.last()@,
            with_leap_second(rfc3339_time(recent.last().timestamp@)),
        ),
        recent_lines(recent).drop_first() == if recent.len() > 1 {
            recent_lines(recent.drop_last())
        } else {
            Seq::empty()
        },
{
    let all = recent_lines(recent);
    let front = recent.drop_last();
    if recent.len() > 1 {
        assert(all.drop_first() =~= recent_lines(front));
    } else {
        assert(all.drop_first() =~= Seq::empty());
    }
}

/// The line of the counts shows each count behind its word.
pub proof fn law_totals_line_shows_the_counts(s: PassMetricsSummary)
    ensures
        ({
            let line = totals_line(s);
            &&& has_text(line, "総観測パス数: "@ + digits(s.total_passes as nat))
            &&& has_text(line, "成功 (中身確認済): "@ + digits(s.success_count as nat))
            &&& has_text(line, "失敗 (微弱/エラー): "@ + digits(s.failure_count as nat))
            &&& has_text(line, "保留 (検知あきらめ): "@ + digits(s.unknown_count as nat))
            &&& has_text(line, "成功率: "@ + fixed_text(s.success_rate, 1) + "%"@)
        }),
{
    let total = digits(s.total_passes as nat);
    let success = digits(s.success_count as nat);
    let failure = digits(s.failure_count as nat);
    let unknown = digits(s.unknown_count as nat);
    let rate = fixed_text(s.success_rate, 1);
    let la = "総観測パス数: "@;
    let lb = " | 成功 (中身確認済): "@;
    let lc = " | 失敗 (微弱/エラー): "@;
    let ld = " | 保留 (検知あきらめ): "@;
    let le = " | 成功率: "@;
    let wb = "成功 (中身確認済): "@;
    let wc = "失敗 (微弱/エラー): "@;
    let wd = "保留 (検知あきらめ): "@;
    let a = left_aligned(total, 4);
    let b = left_aligned(success, 4);
    let c = left_aligned(failure, 4);
    let d = left_aligned(unknown, 4);
    lemma_left_begins(total, 4);
    lemma_left_begins(success, 4);
    lemma_left_begins(failure, 4);
    lemma_left_begins(unknown, 4);
    lemma_total_words();
    let none = Seq::<char>::empty();
    lemma_ends_with(la, la);
    assert(rate.subrange(0, rate.len() as int) =~= rate);
    assert(none + la =~= la);
    let to_a = la + a;
    let to_b = to_a + lb + b;
    let to_c = to_b + lc + c;
    let to_d = to_c + ld + d;
    let to_e = to_d + le + rate;
    let line = to_e + "%"@;
    lemma_has_across(none, la, la, a, total);
    lemma_has_across(to_a, lb, wb, b, success);
    lemma_has_across(to_b, lc, wc, c, failure);
    lemma_has_across(to_c, ld, wd, d, unknown);
    lemma_reaches(to_a, lb, b, la + total);
    lemma_reaches(to_b, lc, c, la + total);
    lemma_reaches(to_c, ld, d, la + total);
    lemma_reaches(to_d, le, rate, la + total);
    lemma_has_more(to_e, "%"@, la + total);
    lemma_reaches(to_b, lc, c, wb + success);
    lemma_reaches(to_c, ld, d, wb + success);
    lemma_reaches(to_d, le, rate, wb + success);
    lemma_has_more(to_e, "%"@, wb + success);
    lemma_reaches(to_c, ld, d, wc + failure);
    lemma_reaches(to_d, le, rate, wc + failure);
    lemma_has_more(to_e, "%"@, wc + failure);
    lemma_reaches(to_d, le, rate, wd + unknown);
    lemma_has_more(to_e, "%"@, wd + unknown);
    lemma_rate_end(to_d, le, rate);
}

/// The rate stands behind its word.
proof fn lemma_rate_end(front: Seq<char>, label: Seq<char>, rate: Seq<char>)
    requires
        "成功率: "@.is_suffix_of(label),
    ensures
        has_text(front + label + rate + "%"@, "成功率: "@ + rate + "%"@),
{
    let word = "成功率: "@;
    let column = rate + "%"@;
    assert(column.subrange(0, column.len() as int) =~= column);
    lemma_has_across(front, label, word, column, column);
    assert(front + label + column =~= front + label + rate + "%"@);
    assert(word + column =~= word + rate + "%"@);
}

/// The words in the line of the counts.
proof fn lemma_total_words()
    ensures
        "成功 (中身確認済): "@.is_suffix_of(" | 成功 (中身確認済): "@),
        "失敗 (微弱/エラー): "@.is_suffix_of(" | 失敗 (微弱/エラー): "@),
        "保留 (検知あきらめ): "@.is_suffix_of(" | 保留 (検知あきらめ): "@),
        "成功率: "@.is_suffix_of(" | 成功率: "@),
{
    reveal_strlit(" | 成功 (中身確認済): ");
    reveal_strlit("成功 (中身確認済): ");
    reveal_strlit(" | 失敗 (微弱/エラー): ");
    reveal_strlit("失敗 (微弱/エラー): ");
    reveal_strlit(" | 保留 (検知あきらめ): ");
    reveal_strlit("保留 (検知あきらめ): ");
    reveal_strlit(" | 成功率: ");
    reveal_strlit("成功率: ");
    lemma_ends_with(" | 成功 (中身確認済): "@, "成功 (中身確認済): "@);
    lemma_ends_with(" | 失敗 (微弱/エラー): "@, "失敗 (微弱/エラー): "@);
    lemma_ends_with(" | 保留 (検知あきらめ): "@, "保留 (検知あきらめ): "@);
    lemma_ends_with(" | 成功率: "@, "成功率: "@);
}

/// A leap second is shown as second 60, and any other second as it is.
pub proof fn law_leap_seconds_are_shown(c: CivilTime, nanos: u32)
    requires
        c.second < 60,
        nanos < 2_000_000_000,
    ensures
        nanos < 1_000_000_000 ==> with_leap_second(Some((c, nanos))) == Some(c),
        nanos >= 1_000_000_000 ==> with_leap_second(Some((c, nanos))) == Some(
            CivilTime { second: (c.second + 1) as u32, ..c },
        ),
        with_leap_second(None) is None,
{
}

/// The report shows everything: the counts, a line for every satellite in their order, and the
/// latest records.
pub proof fn law_metrics_report_shows_everything(
    s: PassMetricsSummary,
    recent: Seq<PassMetricRecord>,
    i: int,
    k: int,
)
    ensures
        report_lines(s, recent)[4] == totals_line(s),
        0 <= i < s.satellite_stats@.len() ==> report_lines(s, recent)[9 + i] == stats_line(
            s.satellite_stats@[i],
        ),
        0 <= k < recent.len() && s.satellite_stats@.len() > 0 ==> report_lines(
            s,
            recent,
        )[13 + s.satellite_stats@.len() + k] == recent_lines(recent)[k],
{
}

/// The plain values of a record are those that it holds.
pub proof fn law_records_are_what_they_say(r: PassMetricRecord)
    ensures
        r@.timestamp == r.timestamp@,
        r@.satellite == r.satellite@,
        r@.frequency_hz == r.frequency_hz,
        r@.signal_type == r.signal_type@,
        r@.max_elevation_deg == r.max_elevation_deg,
        r@.peak_azimuth_deg == r.peak_azimuth_deg,
        r@.status == r.status,
        r@.outcome == r.outcome,
        r@.content_viewable == r.content_viewable,
        r@.content_summary == opt_text(r.content_summary),
        r@.session_dir == r.session_dir@,
        r@.has_image == r.has_image,
        r@.has_audio == r.has_audio,
        r@.has_telemetry_or_text == r.has_telemetry_or_text,
        r@.duration_secs == r.duration_secs,
{
}

} // verus!
