//! When the station does what: the passes of a day, the daily schedule, and the daemon that
//! follows one pass after the other.

use crate::binary64::{
    clamped, fixed_text, law_small_integers_are_exact, law_small_products_are_exact, of_integer,
    product, truncated, Binary64,
};
use crate::clock::{
    date_text, date_time_text, day_of, has_date, is_jst_time, jst_day, jst_of, jst_time,
    law_fields_are_unique, lemma_four_digits, lemma_two_digits, CivilTime,
};
use crate::config::SchedulerConfig;
use crate::discord::{dated_passes, format_mhz, mhz_text};
use crate::orbit::{azimuth_to_direction, compass_name, compass_point, SatellitePass, SignalType};
use crate::path::{join, joined};
use crate::text::{
    align_left, align_right, digits_value, has_text, left_aligned, lemma_begins, lemma_ends_with,
    lemma_has_across, lemma_has_more, lemma_in_front, lemma_last_three, lemma_last_two,
    lemma_left_begins, lemma_reaches, lemma_right_ends, lemma_whole, padded_decimal, padded_digits,
    push_text, right_aligned, texts,
};
use vstd::prelude::*;

verus! {

/// A copy of a pass.
pub fn copy_pass(pass: &SatellitePass) -> (r: SatellitePass)
    ensures
        r == *pass,
{
    SatellitePass {
        satellite_name: pass.satellite_name.clone(),
        frequency_hz: pass.frequency_hz,
        signal_type: pass.signal_type,
        aos: pass.aos,
        los: pass.los,
        max_elevation_deg: pass.max_elevation_deg,
        peak_azimuth_deg: pass.peak_azimuth_deg,
    }
}

/// The passes that begin on the day with this number in Japan, in their order.
pub open spec fn passes_on(passes: Seq<SatellitePass>, day: int) -> Seq<SatellitePass> {
    passes.filter(|p: SatellitePass| day_of(p.aos as int) == day)
}

/// The passes that begin on a day in Japan. Days are counted from 1 January 1970.
pub fn filter_passes_for_jst_date(passes: &[SatellitePass], day: i64) -> (r: Vec<SatellitePass>)
    ensures
        r@ == passes_on(passes@, day as int),
{
    let ghost keep = |p: SatellitePass| day_of(p.aos as int) == day;
    let mut r: Vec<SatellitePass> = Vec::new();
    let mut i: usize = 0;
    proof {
        reveal(Seq::filter);
        assert(r@ =~= passes@.take(0).filter(keep));
    }
    while i < passes.len()
        invariant
            keep == (|p: SatellitePass| day_of(p.aos as int) == day),
            i <= passes@.len(),
            r@ == passes@.take(i as int).filter(keep),
        decreases passes@.len() - i,
    {
        proof {
            crate::text::lemma_filter_push(passes@.take(i as int), passes@[i as int], keep);
            assert(passes@.take(i + 1) =~= passes@.take(i as int).push(passes@[i as int]));
        }
        if jst_day(passes[i].aos) == day {
            r.push(copy_pass(&passes[i]));
        }
        i = i + 1;
    }
    assert(passes@.take(i as int) =~= passes@);
    let ghost whole = day as int;
    assert(keep =~= (|p: SatellitePass| day_of(p.aos as int) == whole));
    r
}

/// The schedule of a day holds exactly the passes that begin on it.
pub proof fn law_day_holds_its_passes(passes: Seq<SatellitePass>, day: int, p: SatellitePass)
    ensures
        passes_on(passes, day).contains(p) <==> passes.contains(p) && day_of(p.aos as int) == day,
{
    let keep = |p: SatellitePass| day_of(p.aos as int) == day;
    let kept = passes.filter(keep);
    if kept.contains(p) {
        let i = choose|i: int| 0 <= i < kept.len() && kept[i] == p;
        passes.lemma_filter_pred(keep, i);
        passes.lemma_filter_contains_rev(keep, p);
    }
    if passes.contains(p) && day_of(p.aos as int) == day {
        let i = choose|i: int| 0 <= i < passes.len() && passes[i] == p;
        passes.lemma_filter_contains(keep, i);
    }
}

/// A line across the table.
pub open spec fn table_rule() -> Seq<char> {
    "====================================================================================================================="@
}

/// The line of a pass in the table.
pub open spec fn pass_line(pass: SatellitePass) -> Seq<char> {
    left_aligned(pass.satellite_name@, 15) + " | "@ + right_aligned(
        mhz_text(pass.frequency_hz as nat),
        7,
    ) + " MHz | "@ + left_aligned(pass.signal_type.display(), 28) + " | "@ + date_time_text(
        jst_of(pass.aos as int),
    ) + " | "@ + date_time_text(jst_of(pass.los as int)) + " | "@ + right_aligned(
        fixed_text(pass.max_elevation_deg, 1),
        4,
    ) + "° ("@ + compass_name(compass_point(pass.peak_azimuth_deg)) + ")"@
}

/// The lines of the table of the coming passes.
pub open spec fn schedule_lines(
    passes: Seq<SatellitePass>,
    lat: Binary64,
    lon: Binary64,
    min_el: Binary64,
) -> Seq<Seq<char>> {
    seq![
        Seq::<char>::empty(),
        table_rule(),
        "📡 地上局 衛星通過予定スケジュール (今後24時間 / 観測地: 緯度 "@ + fixed_text(
            lat,
            4,
        ) + ", 経度 "@ + fixed_text(lon, 4) + ")"@,
        table_rule(),
        left_aligned("衛星名"@, 15) + " | "@ + left_aligned("周波数"@, 12) + " | "@ + left_aligned(
            "信号方式"@,
            28,
        ) + " | "@ + left_aligned("通過開始 (AOS / JST)"@, 20) + " | "@ + left_aligned(
            "通過終了 (LOS / JST)"@,
            20,
        ) + " | "@ + left_aligned("最大仰角 (ピーク方位)"@, 18),
        "---------------------------------------------------------------------------------------------------------------------"@,
    ] + (if passes.len() == 0 {
        seq![
            "※ 仰角 "@ + fixed_text(min_el, 1)
                + "° 以上の通過パスは見つかりませんでした"@,
        ]
    } else {
        Seq::new(passes.len(), |i: int| pass_line(passes[i]))
    }) + seq![table_rule(), Seq::<char>::empty()]
}

/// The line of a pass in the table.
fn format_pass(pass: &SatellitePass) -> (r: String)
    requires
        has_date(pass.aos as int),
        has_date(pass.los as int),
    ensures
        r@ == pass_line(*pass),
{
    let mut line: String = align_left(pass.satellite_name.as_str(), 15);
    line.append(" | ");
    line.append(align_right(format_mhz(pass.frequency_hz).as_str(), 7).as_str());
    line.append(" MHz | ");
    line.append(align_left(pass.signal_type.name(), 28).as_str());
    line.append(" | ");
    line.append(jst_time(pass.aos).format_date_time().as_str());
    line.append(" | ");
    line.append(jst_time(pass.los).format_date_time().as_str());
    line.append(" | ");
    line.append(align_right(pass.max_elevation_deg.fixed(1).as_str(), 4).as_str());
    line.append("° (");
    line.append(azimuth_to_direction(pass.peak_azimuth_deg));
    line.append(")");
    line
}

/// The lines of the table of the coming passes.
pub fn show_schedule(
    passes: &[SatellitePass],
    lat: Binary64,
    lon: Binary64,
    min_el: Binary64,
) -> (r: Vec<String>)
    requires
        dated_passes(passes@),
    ensures
        texts(r@) == schedule_lines(passes@, lat, lon, min_el),
{
    let rule: &str =
        "=====================================================================================================================";
    let mut r: Vec<String> = Vec::new();
    proof {
        reveal_strlit("");
        assert(""@ =~= Seq::<char>::empty());
    }
    push_text(&mut r, "");
    push_text(&mut r, rule);
    let mut line: String =
        "📡 地上局 衛星通過予定スケジュール (今後24時間 / 観測地: 緯度 ".to_owned();
    line.append(lat.fixed(4).as_str());
    line.append(", 経度 ");
    line.append(lon.fixed(4).as_str());
    line.append(")");
    push_text(&mut r, line.as_str());
    push_text(&mut r, rule);
    let mut line: String = align_left("衛星名", 15);
    line.append(" | ");
    line.append(align_left("周波数", 12).as_str());
    line.append(" | ");
    line.append(align_left("信号方式", 28).as_str());
    line.append(" | ");
    line.append(align_left("通過開始 (AOS / JST)", 20).as_str());
    line.append(" | ");
    line.append(align_left("通過終了 (LOS / JST)", 20).as_str());
    line.append(" | ");
    line.append(align_left("最大仰角 (ピーク方位)", 18).as_str());
    push_text(&mut r, line.as_str());
    push_text(
        &mut r,
        "---------------------------------------------------------------------------------------------------------------------",
    );
    let ghost head = texts(r@);
    let n: usize = passes.len();
    let ghost rows = Seq::new(passes@.len(), |i: int| pass_line(passes@[i]));
    if n == 0 {
        let mut line: String = "※ 仰角 ".to_owned();
        line.append(min_el.fixed(1).as_str());
        line.append("° 以上の通過パスは見つかりませんでした");
        push_text(&mut r, line.as_str());
    } else {
        let mut i: usize = 0;
        assert(texts(r@) =~= head + rows.take(0));
        while i < n
            invariant
                dated_passes(passes@),
                n == passes@.len(),
                rows == Seq::new(passes@.len(), |i: int| pass_line(passes@[i])),
                i <= n,
                texts(r@) == head + rows.take(i as int),
            decreases n - i,
        {
            push_text(&mut r, format_pass(&passes[i]).as_str());
            i = i + 1;
            assert(texts(r@) =~= head + rows.take(i as int));
        }
        assert(rows.take(n as int) =~= rows);
    }
    push_text(&mut r, rule);
    push_text(&mut r, "");
    assert(texts(r@) =~= schedule_lines(passes@, lat, lon, min_el));
    r
}

/// When a day begins in Japan.
pub open spec fn day_start(day: int) -> int {
    day * 86_400_000 - 32_400_000
}

/// When the schedule of a day is due, where hour and minute exist.
pub open spec fn target_on(day: int, hour: int, minute: int) -> Option<int> {
    if hour < 24 && minute < 60 {
        Some(day_start(day) + hour * 3_600_000 + minute * 60_000)
    } else {
        None
    }
}

/// `t`, or a day after `now` where there is none.
pub open spec fn or_a_day_later(t: Option<int>, now: int) -> int {
    match t {
        Some(x) => x,
        None => now + 86_400_000,
    }
}

/// When the next schedule is due: today, unless it is past the time or today's was sent; else
/// tomorrow.
pub open spec fn next_due(now: int, last_sent: Option<i64>, hour: int, minute: int) -> int {
    let today = day_of(now);
    let at = or_a_day_later(target_on(today, hour, minute), now);
    if now < at && !(last_sent is Some && last_sent->0 == today) {
        at
    } else {
        or_a_day_later(target_on(today + 1, hour, minute), now)
    }
}

/// What the daily scheduler is busy with.
#[derive(Clone, Copy, Debug, PartialEq, Eq, Structural)]
pub enum DailyPhase {
    /// Sending the schedule of a day because the station has just started.
    Starting { day: i64 },
    /// Waiting for the set time.
    Waiting,
    /// Sending the schedule of a day.
    Sending { day: i64 },
    /// Pausing after a schedule was sent, so that the same minute does not fire twice.
    Pausing,
    /// Pausing after the schedule of a day could not be sent, before another try.
    Retrying { day: i64 },
    /// Nothing more.
    Ended,
}

/// What the daily scheduler has to do next.
#[derive(Clone, Copy, Debug, PartialEq, Eq, Structural)]
pub enum DailyAction {
    /// Send the schedule of the day with this number.
    Send { day: i64 },
    /// Wait for some milliseconds; a request to end interrupts the wait.
    Wait { ms: u64 },
    /// Pause for some seconds.
    Pause { secs: u64, interruptible: bool },
    Stop,
}

/// What happened.
#[derive(Clone, Copy, Debug, PartialEq, Eq, Structural)]
pub enum DailyEvent {
    /// The schedule was sent, or could not be.
    Sent { delivered: bool },
    /// The wait or the pause is over.
    Done,
    /// The wait or the pause was interrupted: the scheduler is to end.
    Interrupted,
}

/// Sends the schedule of each day once, at a set time.
#[derive(Clone, Copy, Debug, PartialEq, Eq, Structural)]
pub struct DailyScheduler {
    pub hour: u32,
    pub minute: u32,
    /// The last day whose schedule was sent.
    pub last_sent: Option<i64>,
    pub phase: DailyPhase,
}

/// What can happen in a phase.
pub open spec fn daily_expects(phase: DailyPhase, event: DailyEvent) -> bool {
    match phase {
        DailyPhase::Starting { .. } | DailyPhase::Sending { .. } => event is Sent,
        DailyPhase::Waiting | DailyPhase::Retrying { .. } => event is Done || event is Interrupted,
        DailyPhase::Pausing => event is Done,
        DailyPhase::Ended => false,
    }
}

/// The scheduler waits until the next schedule is due.
pub open spec fn daily_wait(d: DailyScheduler, now: i64) -> (DailyScheduler, DailyAction) {
    (
        DailyScheduler { phase: DailyPhase::Waiting, ..d },
        DailyAction::Wait {
            ms: (next_due(now as int, d.last_sent, d.hour as int, d.minute as int) - now) as u64,
        },
    )
}

/// The scheduler sends the schedule of a day.
pub open spec fn daily_send(d: DailyScheduler, day: i64) -> (DailyScheduler, DailyAction) {
    (
        DailyScheduler { phase: DailyPhase::Sending { day }, ..d },
        DailyAction::Send { day },
    )
}

/// What the daily scheduler does next. A schedule that could not be sent is tried again, for the
/// same day, after five minutes; one that was meant for the start waits for the set time instead.
pub open spec fn daily_next(d: DailyScheduler, event: DailyEvent, now: i64) -> (
    DailyScheduler,
    DailyAction,
) {
    match (d.phase, event) {
        (DailyPhase::Starting { day }, DailyEvent::Sent { delivered }) => daily_wait(
            if delivered {
                DailyScheduler { last_sent: Some(day), ..d }
            } else {
                d
            },
            now,
        ),
        (DailyPhase::Waiting, DailyEvent::Done) => daily_send(d, day_of(now as int) as i64),
        (DailyPhase::Sending { day }, DailyEvent::Sent { delivered }) => if delivered {
            (
                DailyScheduler { last_sent: Some(day), phase: DailyPhase::Pausing, ..d },
                DailyAction::Pause { secs: 60, interruptible: false },
            )
        } else {
            (
                DailyScheduler { phase: DailyPhase::Retrying { day }, ..d },
                DailyAction::Pause { secs: 300, interruptible: true },
            )
        },
        (DailyPhase::Pausing, DailyEvent::Done) => daily_wait(d, now),
        (DailyPhase::Retrying { day }, DailyEvent::Done) => daily_send(d, day),
        _ => (DailyScheduler { phase: DailyPhase::Ended, ..d }, DailyAction::Stop),
    }
}

impl DailyScheduler {
    /// The scheduler for the time in the settings, and what it does first; none where it is
    /// switched off.
    pub fn start(config: &SchedulerConfig, now: i64) -> (r: Option<(Self, DailyAction)>)
        requires
            has_date(now as int),
        ensures
            r is Some == config.daily_schedule_enabled,
            r is Some ==> r->0 == ({
                let fresh = DailyScheduler {
                    hour: config.daily_schedule_hour_jst,
                    minute: config.daily_schedule_minute_jst,
                    last_sent: None,
                    phase: DailyPhase::Waiting,
                };
                if config.daily_schedule_send_on_startup {
                    let day = day_of(now as int) as i64;
                    (
                        DailyScheduler { phase: DailyPhase::Starting { day }, ..fresh },
                        DailyAction::Send { day },
                    )
                } else {
                    daily_wait(fresh, now)
                }
            }),
    {
        if !config.daily_schedule_enabled {
            return None;
        }
        let mut d: DailyScheduler = DailyScheduler {
            hour: config.daily_schedule_hour_jst,
            minute: config.daily_schedule_minute_jst,
            last_sent: None,
            phase: DailyPhase::Waiting,
        };
        let action: DailyAction = if config.daily_schedule_send_on_startup {
            let day: i64 = jst_day(now);
            d.phase = DailyPhase::Starting { day };
            DailyAction::Send { day }
        } else {
            d.wait(now)
        };
        Some((d, action))
    }

    /// When the next schedule is due.
    pub fn next_target(&self, now: i64) -> (r: i64)
        requires
            has_date(now as int),
        ensures
            r == next_due(now as int, self.last_sent, self.hour as int, self.minute as int),
    {
        let today: i64 = jst_day(now);
        let later: i64 = now + 86_400_000;
        let valid: bool = self.hour < 24 && self.minute < 60;
        let offset: i64 = if valid {
            self.hour as i64 * 3_600_000 + self.minute as i64 * 60_000
        } else {
            0
        };
        let at: i64 = if valid {
            today * 86_400_000 - 32_400_000 + offset
        } else {
            later
        };
        let sent: bool = match self.last_sent {
            Some(day) => day == today,
            None => false,
        };
        if now < at && !sent {
            at
        } else if valid {
            (today + 1) * 86_400_000 - 32_400_000 + offset
        } else {
            later
        }
    }

    /// The scheduler waits until the next schedule is due.
    fn wait(&mut self, now: i64) -> (r: DailyAction)
        requires
            has_date(now as int),
        ensures
            (*final(self), r) == daily_wait(*old(self), now),
    {
        let target: i64 = self.next_target(now);
        proof {
            law_next_schedule_is_ahead(
                now as int,
                self.last_sent,
                self.hour as int,
                self.minute as int,
            );
        }
        self.phase = DailyPhase::Waiting;
        DailyAction::Wait { ms: (target - now) as u64 }
    }

    /// The scheduler sends the schedule of a day.
    fn send(&mut self, day: i64) -> (r: DailyAction)
        ensures
            (*final(self), r) == daily_send(*old(self), day),
    {
        self.phase = DailyPhase::Sending { day };
        DailyAction::Send { day }
    }

    /// What the daily scheduler does next, after `event` at `now`.
    pub fn step(&mut self, event: DailyEvent, now: i64) -> (r: DailyAction)
        requires
            daily_expects(old(self).phase, event),
            has_date(now as int),
        ensures
            (*final(self), r) == daily_next(*old(self), event, now),
    {
        match (self.phase, event) {
            (DailyPhase::Starting { day }, DailyEvent::Sent { delivered }) => {
                if delivered {
                    self.last_sent = Some(day);
                }
                self.wait(now)
            },
            (DailyPhase::Waiting, DailyEvent::Done) => self.send(jst_day(now)),
            (DailyPhase::Sending { day }, DailyEvent::Sent { delivered }) => if delivered {
                self.last_sent = Some(day);
                self.phase = DailyPhase::Pausing;
                DailyAction::Pause { secs: 60, interruptible: false }
            } else {
                self.phase = DailyPhase::Retrying { day };
                DailyAction::Pause { secs: 300, interruptible: true }
            },
            (DailyPhase::Pausing, DailyEvent::Done) => self.wait(now),
            (DailyPhase::Retrying { day }, DailyEvent::Done) => self.send(day),
            _ => {
                self.phase = DailyPhase::Ended;
                DailyAction::Stop
            },
        }
    }
}

/// The next schedule is always due later than now, and within two days.
pub proof fn law_next_schedule_is_ahead(
    now: int,
    last_sent: Option<i64>,
    hour: int,
    minute: int,
)
    requires
        0 <= hour,
        0 <= minute,
    ensures
        now < next_due(now, last_sent, hour, minute) <= now + 172_800_000,
{
}

/// A day's schedule is sent once: after it was sent, the next is due on the day after.
pub proof fn law_schedule_is_sent_once_a_day(now: int, today: i64, hour: int, minute: int)
    requires
        0 <= hour,
        0 <= minute,
        today == day_of(now),
    ensures
        day_of(next_due(now, Some(today), hour, minute)) == today + 1,
{
}

/// A day whose schedule was not sent is not passed over before its time.
pub proof fn law_schedule_is_not_skipped(
    now: int,
    last_sent: Option<i64>,
    hour: int,
    minute: int,
)
    requires
        0 <= hour < 24,
        0 <= minute < 60,
        now < target_on(day_of(now), hour, minute)->0,
        last_sent != Some(day_of(now) as i64),
        i64::MIN <= day_of(now) <= i64::MAX,
    ensures
        day_of(next_due(now, last_sent, hour, minute)) == day_of(now),
{
}

/// A day is marked as sent when its schedule was delivered, and only then. A schedule that could
/// not be delivered at its time is tried again after five minutes, for the same day.
pub proof fn law_failed_schedule_is_tried_again(
    d: DailyScheduler,
    day: i64,
    delivered: bool,
    now: i64,
    later: i64,
)
    requires
        d.phase == (DailyPhase::Sending { day }),
    ensures
        ({
            let (after, pause) = daily_next(d, DailyEvent::Sent { delivered }, now);
            let (_, action) = daily_next(after, DailyEvent::Done, later);
            &&& delivered ==> after.last_sent == Some(day)
            &&& !delivered ==> after.last_sent == d.last_sent && pause == (DailyAction::Pause {
                secs: 300,
                interruptible: true,
            }) && action == (DailyAction::Send { day })
        }),
{
}

/// After the schedule of a day was sent, the next that is sent is that of a later day: the
/// scheduler waits so long.
pub proof fn law_no_day_is_sent_twice(d: DailyScheduler, sent: i64, now: i64, later: i64)
    requires
        d.phase == DailyPhase::Pausing,
        d.last_sent == Some(sent),
        sent <= day_of(now as int),
        has_date(now as int),
        has_date(later as int),
        daily_next(d, DailyEvent::Done, now).1 matches DailyAction::Wait { ms } && later >= now + ms,
    ensures
        ({
            let waiting = daily_next(d, DailyEvent::Done, now).0;
            daily_next(waiting, DailyEvent::Done, later).1 matches DailyAction::Send { day } && day
                > sent
        }),
{
    let due = next_due(now as int, d.last_sent, d.hour as int, d.minute as int);
    law_next_schedule_is_ahead(now as int, d.last_sent, d.hour as int, d.minute as int);
    if sent == day_of(now as int) {
        law_schedule_is_sent_once_a_day(now as int, sent, d.hour as int, d.minute as int);
    }
    assert(later >= due);
}

/// A request to end is obeyed while the scheduler waits, and nothing else ends it.
pub proof fn law_only_an_interruption_ends_the_scheduler(
    d: DailyScheduler,
    event: DailyEvent,
    now: i64,
)
    requires
        daily_expects(d.phase, event),
    ensures
        daily_next(d, event, now).1 is Stop <==> event is Interrupted,
{
}

/// When a day begins in Japan: the scan for its passes starts there.
pub fn start_of_day(day: i64) -> (r: i64)
    requires
        has_date(day_start(day as int)),
    ensures
        r == day_start(day as int),
        day_of(r as int) == day,
{
    day * 86_400_000 - 32_400_000
}

/// The date of a day, as the schedule names it.
pub fn date_label(day: i64) -> (r: String)
    requires
        has_date(day_start(day as int)),
    ensures
        r@ == date_text(jst_of(day_start(day as int))),
{
    jst_time(start_of_day(day)).format_date()
}

/// How the wait for a time goes on.
#[derive(Clone, Copy, Debug, PartialEq, Eq, Structural)]
pub enum WaitStep {
    /// The time has come.
    Reached,
    /// Sleep so many seconds and look again; `report` says whether to log what is left.
    Sleep { secs: u64, report: bool, remaining_secs: u64 },
}

/// The whole seconds in a span of milliseconds that is not negative, else none.
pub open spec fn seconds_left(ms: int) -> int {
    if ms < 0 {
        0
    } else {
        ms / 1000
    }
}

/// How the wait for `target` goes on.
pub open spec fn wait_step_at(target: int, now: int, last_report: int) -> WaitStep {
    if now >= target {
        WaitStep::Reached
    } else {
        let left = seconds_left(target - now);
        WaitStep::Sleep {
            secs: (if left < 1 {
                1
            } else if left > 5 {
                5
            } else {
                left
            }) as u64,
            report: now - last_report >= 60_000 && left >= 30,
            remaining_secs: left as u64,
        }
    }
}

/// How the wait for `target` goes on. The clock is read anew each time, so that a clock that was
/// set or a suspended machine is noticed within five seconds.
pub fn wait_until(target: i64, now: i64, last_report: i64) -> (r: WaitStep)
    ensures
        r == wait_step_at(target as int, now as int, last_report as int),
{
    if now >= target {
        return WaitStep::Reached;
    }
    let left: u64 = ((target as i128 - now as i128) / 1000) as u64;
    let secs: u64 = if left < 1 {
        1
    } else if left > 5 {
        5
    } else {
        left
    };
    let report: bool = now as i128 - last_report as i128 >= 60_000 && left >= 30;
    WaitStep::Sleep { secs, report, remaining_secs: left }
}

/// Waiting does not oversleep by more than a second, and never sleeps longer than five.
pub proof fn law_waiting_does_not_oversleep(target: int, now: int, last_report: int)
    requires
        target - now <= 1000 * u64::MAX,
    ensures
        wait_step_at(target, now, last_report) matches WaitStep::Sleep { secs, .. } ==> 1 <= secs
            <= 5 && now + secs * 1000 < target + 1000,
        wait_step_at(target, now, last_report) is Reached <==> now >= target,
{
}

/// The first of the passes that is not over.
pub open spec fn is_next_pass(passes: Seq<SatellitePass>, now: int, i: int) -> bool {
    &&& 0 <= i < passes.len()
    &&& passes[i].los > now
    &&& forall|j: int| 0 <= j < i ==> (#[trigger] passes[j]).los <= now
}

/// The first of the passes that is not over.
pub fn next_pass(passes: &[SatellitePass], now: i64) -> (r: Option<SatellitePass>)
    ensures
        match r {
            Some(p) => exists|i: int| #[trigger] is_next_pass(passes@, now as int, i) && passes@[i]
                == p,
            None => forall|i: int| 0 <= i < passes@.len() ==> (#[trigger] passes@[i]).los <= now,
        },
{
    let mut i: usize = 0;
    while i < passes.len()
        invariant
            i <= passes@.len(),
            forall|j: int| 0 <= j < i ==> (#[trigger] passes@[j]).los <= now,
        decreases passes@.len() - i,
    {
        if passes[i].los > now {
            assert(is_next_pass(passes@, now as int, i as int));
            return Some(copy_pass(&passes[i]));
        }
        i = i + 1;
    }
    None
}

/// The elements are due to be fetched: there are none, or they are as old as the settings allow.
pub open spec fn elements_due(now: int, last_update: int, hours: int, known: bool) -> bool {
    !known || now - last_update >= hours * 3_600_000
}

/// Whether the elements are due to be fetched.
pub fn tle_update_due(now: i64, last_update: i64, hours: u64, known: bool) -> (r: bool)
    ensures
        r == elements_due(now as int, last_update as int, hours as int, known),
{
    !known || now as i128 - last_update as i128 >= hours as i128 * 3_600_000
}

/// How long before a pass it is announced, in milliseconds.
pub open spec fn pre_alert_ms(minutes: Binary64) -> int {
    truncated(product(minutes, of_integer(60_000)))
}

/// When a pass is announced.
pub open spec fn alert_time(aos: int, minutes: Binary64) -> int {
    clamped(aos - pre_alert_ms(minutes))
}

/// When a pass is announced.
pub fn pre_alert_time(aos: i64, minutes: Binary64) -> (r: i64)
    ensures
        r == alert_time(aos as int, minutes),
{
    let ahead: i64 = minutes.times(Binary64::integer(60_000)).truncate();
    let t: i128 = aos as i128 - ahead as i128;
    if t > i64::MAX as i128 {
        i64::MAX
    } else if t < i64::MIN as i128 {
        i64::MIN
    } else {
        t as i64
    }
}

/// `s` without spaces.
pub open spec fn without_spaces(s: Seq<char>) -> Seq<char> {
    s.filter(|c: char| c != ' ')
}

/// `s` without spaces.
pub fn remove_spaces(s: &str) -> (r: String)
    ensures
        r@ == without_spaces(s@),
{
    let ghost keep = |c: char| c != ' ';
    let n: usize = s.unicode_len();
    let mut r: String = String::new();
    let mut i: usize = 0;
    proof {
        reveal(Seq::filter);
        assert(r@ =~= s@.take(0).filter(keep));
    }
    while i < n
        invariant
            keep == (|c: char| c != ' '),
            n == s@.len(),
            i <= n,
            r@ == s@.take(i as int).filter(keep),
        decreases n - i,
    {
        proof {
            crate::text::lemma_filter_push(s@.take(i as int), s@[i as int], keep);
            assert(s@.take(i + 1) =~= s@.take(i as int).push(s@[i as int]));
        }
        if s.get_char(i) != ' ' {
            let ghost before = r@;
            r.append(s.substring_char(i, i + 1));
            assert(r@ =~= before.push(s@[i as int]));
        }
        i = i + 1;
    }
    assert(s@.take(n as int) =~= s@);
    r
}

/// Date and time of day without separators but one, as in "20260909_074013".
pub open spec fn stamp_text(c: CivilTime) -> Seq<char> {
    crate::clock::year_text(c.year as int) + padded_digits(c.month as nat, 2) + padded_digits(
        c.day as nat,
        2,
    ) + "_"@ + padded_digits(c.hour as nat, 2) + padded_digits(c.minute as nat, 2)
        + padded_digits(c.second as nat, 2)
}

/// The directory of the session of a pass: named by its beginning and its satellite.
pub open spec fn session_dir_of(output_dir: Seq<char>, pass: SatellitePass) -> Seq<char> {
    joined(
        output_dir,
        stamp_text(jst_of(pass.aos as int)) + "_"@ + without_spaces(pass.satellite_name@),
    )
}

/// The recording of a pass: raw samples or audio.
pub open spec fn recording_of(session_dir: Seq<char>, signal: SignalType) -> Seq<char> {
    joined(
        session_dir,
        if signal.raw_iq() {
            "raw.u8"@
        } else {
            "raw.wav"@
        },
    )
}

/// The directory of the session of a pass.
pub fn session_directory(output_dir: &str, pass: &SatellitePass) -> (r: String)
    requires
        has_date(pass.aos as int),
    ensures
        r@ == session_dir_of(output_dir@, *pass),
{
    let t: CivilTime = jst_time(pass.aos);
    let mut name: String = t.format_year();
    name.append(padded_decimal(t.month as u64, 2).as_str());
    name.append(padded_decimal(t.day as u64, 2).as_str());
    name.append("_");
    name.append(padded_decimal(t.hour as u64, 2).as_str());
    name.append(padded_decimal(t.minute as u64, 2).as_str());
    name.append(padded_decimal(t.second as u64, 2).as_str());
    name.append("_");
    name.append(remove_spaces(pass.satellite_name.as_str()).as_str());
    join(output_dir, name.as_str())
}

/// The recording of a pass.
pub fn recording_path(session_dir: &str, signal: SignalType) -> (r: String)
    ensures
        r@ == recording_of(session_dir@, signal),
{
    if signal.is_raw_iq() {
        join(session_dir, "raw.u8")
    } else {
        join(session_dir, "raw.wav")
    }
}

/// A pass is announced so many minutes before it begins: for whole minutes the alert comes exactly
/// that long before, as far as the time can be held.
pub proof fn law_alert_comes_minutes_before(aos: i64, minutes: nat)
    requires
        minutes <= 1_000_000_000,
        aos - minutes * 60_000 >= i64::MIN,
    ensures
        alert_time(aos as int, of_integer(minutes)) == aos - minutes * 60_000,
{
    law_small_products_are_exact(minutes, 60_000);
    law_small_integers_are_exact(minutes * 60_000);
}

/// The pass that is followed next is the first that has not ended: a pass that is under way is
/// taken before those that are still to come, and a pass that is over never.
pub proof fn law_next_pass_is_the_first_not_over(
    passes: Seq<SatellitePass>,
    now: int,
    i: int,
    k: int,
)
    requires
        is_next_pass(passes, now, i),
        0 <= k < passes.len(),
    ensures
        passes[i].los > now,
        k < i ==> passes[k].los <= now,
        passes[k].los > now ==> i <= k,
{
}

/// The schedule is due at its time of day in Japan: at the set hour and minute, of today where
/// that lies ahead and today's was not sent, and else of tomorrow.
pub proof fn law_schedule_is_due_at_its_time(
    now: int,
    last_sent: Option<i64>,
    hour: int,
    minute: int,
)
    requires
        0 <= hour < 24,
        0 <= minute < 60,
    ensures
        ({
            let due = next_due(now, last_sent, hour, minute);
            let sent = last_sent is Some && last_sent->0 == day_of(now);
            &&& (due + 9 * 3_600_000) % 86_400_000 == hour * 3_600_000 + minute * 60_000
            &&& !sent ==> now < due <= now + 86_400_000
            &&& sent ==> day_of(due) == day_of(now) + 1
        }),
{
    let due = next_due(now, last_sent, hour, minute);
    let offset = hour * 3_600_000 + minute * 60_000;
    let today = day_of(now);
    assert(due + 32_400_000 == today * 86_400_000 + offset || due + 32_400_000 == (today + 1)
        * 86_400_000 + offset);
}

/// The scheduler waits exactly until the schedule is due, and then sends that of the day on which
/// it is; after a schedule was sent it pauses for a minute, and then waits for the next.
pub proof fn law_schedule_is_sent_when_due(d: DailyScheduler, now: i64, later: i64)
    requires
        has_date(now as int),
        has_date(later as int),
    ensures
        d.phase == DailyPhase::Pausing ==> ({
            let n = daily_next(d, DailyEvent::Done, now);
            &&& n.0.phase == DailyPhase::Waiting
            &&& n.0.last_sent == d.last_sent
            &&& n.1 matches DailyAction::Wait { ms } && now + ms == next_due(
                now as int,
                d.last_sent,
                d.hour as int,
                d.minute as int,
            )
        }),
        d.phase == DailyPhase::Waiting ==> ({
            let n = daily_next(d, DailyEvent::Done, later);
            &&& n.1 == (DailyAction::Send { day: day_of(later as int) as i64 })
            &&& n.0.phase == (DailyPhase::Sending { day: day_of(later as int) as i64 })
            &&& n.0.last_sent == d.last_sent
        }),
        d.phase is Sending ==> ({
            let n = daily_next(d, DailyEvent::Sent { delivered: true }, now);
            &&& n.1 == (DailyAction::Pause { secs: 60, interruptible: false })
            &&& n.0.phase == DailyPhase::Pausing
            &&& n.0.last_sent == Some(d.phase->Sending_day)
        }),
        d.phase is Starting ==> ({
            let sent = daily_next(d, DailyEvent::Sent { delivered: true }, now);
            let not = daily_next(d, DailyEvent::Sent { delivered: false }, now);
            &&& sent.0.phase == DailyPhase::Waiting && sent.0.last_sent == Some(
                d.phase->Starting_day,
            )
            &&& not.0.phase == DailyPhase::Waiting && not.0.last_sent == d.last_sent
            &&& sent.1 is Wait && not.1 is Wait
        }),
{
    law_next_schedule_is_ahead(now as int, d.last_sent, d.hour as int, d.minute as int);
}

/// The line of a pass shows its satellite, its frequency, its signal, its beginning and then its
/// end, how high it comes and where.
pub proof fn law_table_line_shows_the_pass(pass: SatellitePass)
    ensures
        ({
            let line = pass_line(pass);
            &&& pass.satellite_name@.is_prefix_of(line)
            &&& has_text(line, mhz_text(pass.frequency_hz as nat) + " MHz"@)
            &&& has_text(line, " | "@ + pass.signal_type.display())
            &&& has_text(
                line,
                date_time_text(jst_of(pass.aos as int)) + " | "@ + date_time_text(
                    jst_of(pass.los as int),
                ),
            )
            &&& has_text(line, fixed_text(pass.max_elevation_deg, 1) + "°"@)
            &&& (compass_name(compass_point(pass.peak_azimuth_deg)) + ")"@).is_suffix_of(line)
        }),
{
    let name = pass.satellite_name@;
    let mhz = mhz_text(pass.frequency_hz as nat);
    let signal = pass.signal_type.display();
    let begun = date_time_text(jst_of(pass.aos as int));
    let ended = date_time_text(jst_of(pass.los as int));
    let el = fixed_text(pass.max_elevation_deg, 1);
    let dir = compass_name(compass_point(pass.peak_azimuth_deg));
    let bar = " | "@;
    let unit = " MHz | "@;
    let degrees = "° ("@;
    reveal_strlit(" | ");
    reveal_strlit(" MHz | ");
    reveal_strlit(" MHz");
    reveal_strlit("° (");
    reveal_strlit("°");
    let a = left_aligned(name, 15);
    let b = right_aligned(mhz, 7);
    let c = left_aligned(signal, 28);
    let d = right_aligned(el, 4);
    lemma_left_begins(name, 15);
    lemma_right_ends(mhz, 7);
    lemma_left_begins(signal, 28);
    lemma_right_ends(el, 4);
    lemma_ends_with(unit, bar);
    assert(" MHz"@.is_prefix_of(unit)) by {
        assert(unit.subrange(0, 4) =~= " MHz"@);
    }
    assert("°"@.is_prefix_of(degrees)) by {
        assert(degrees.subrange(0, 1) =~= "°"@);
    }
    let to_b = a + bar + b;
    let to_unit = to_b + unit;
    let to_c = to_unit + c;
    let to_begun = to_c + bar + begun;
    let to_ended = to_begun + bar + ended;
    let to_d = to_ended + bar + d;
    let to_degrees = to_d + degrees;
    let to_dir = to_degrees + dir;
    let line = to_dir + ")"@;
    assert(line == pass_line(pass));
    let w = mhz + " MHz"@;
    lemma_has_across(a + bar, b, mhz, unit, " MHz"@);
    lemma_has_more(to_unit, c, w);
    let x = bar + signal;
    lemma_has_across(to_b, unit, bar, c, signal);
    let y = begun + bar + ended;
    lemma_last_three(to_c + bar, begun, bar, ended);
    let z = el + "°"@;
    lemma_has_across(to_ended + bar, d, el, degrees, "°"@);
    lemma_reaches(to_c, bar, begun, w);
    lemma_reaches(to_begun, bar, ended, w);
    lemma_reaches(to_ended, bar, d, w);
    lemma_reaches(to_d, degrees, dir, w);
    lemma_has_more(to_dir, ")"@, w);
    lemma_reaches(to_c, bar, begun, x);
    lemma_reaches(to_begun, bar, ended, x);
    lemma_reaches(to_ended, bar, d, x);
    lemma_reaches(to_d, degrees, dir, x);
    lemma_has_more(to_dir, ")"@, x);
    lemma_reaches(to_ended, bar, d, y);
    lemma_reaches(to_d, degrees, dir, y);
    lemma_has_more(to_dir, ")"@, y);
    lemma_reaches(to_degrees, dir, ")"@, z);
    lemma_whole(line);
    lemma_in_front(to_dir, ")"@, line);
    lemma_in_front(to_degrees, dir, line);
    lemma_in_front(to_d, degrees, line);
    lemma_in_front(to_ended + bar, d, line);
    lemma_in_front(to_ended, bar, line);
    lemma_in_front(to_begun + bar, ended, line);
    lemma_in_front(to_begun, bar, line);
    lemma_in_front(to_c + bar, begun, line);
    lemma_in_front(to_c, bar, line);
    lemma_in_front(to_unit, c, line);
    lemma_in_front(to_b, unit, line);
    lemma_in_front(a + bar, b, line);
    lemma_in_front(a, bar, line);
    lemma_begins(name, a, line);
    lemma_whole(dir);
    lemma_last_two(to_degrees, dir, dir, ")"@);
}

/// The table has a line for every pass, in their order, and says where the station stands; where
/// there is none it says how high one would have to come.
pub proof fn law_table_shows_every_pass(
    passes: Seq<SatellitePass>,
    lat: Binary64,
    lon: Binary64,
    min_el: Binary64,
)
    ensures
        ({
            let lines = schedule_lines(passes, lat, lon, min_el);
            &&& passes.len() > 0 ==> lines.len() == passes.len() + 8
            &&& passes.len() > 0 ==> lines.subrange(6, lines.len() - 2)
                == passes.map_values(|p: SatellitePass| pass_line(p))
            &&& passes.len() == 0 ==> lines.len() == 9 && has_text(
                lines[6],
                fixed_text(min_el, 1) + "°"@,
            )
            &&& has_text(lines[2], "緯度 "@ + fixed_text(lat, 4))
            &&& has_text(lines[2], "経度 "@ + fixed_text(lon, 4))
        }),
{
    let lines = schedule_lines(passes, lat, lon, min_el);
    let y = fixed_text(lat, 4);
    let x = fixed_text(lon, 4);
    let head = "📡 地上局 衛星通過予定スケジュール (今後24時間 / 観測地: 緯度 "@;
    let comma = ", 経度 "@;
    reveal_strlit("📡 地上局 衛星通過予定スケジュール (今後24時間 / 観測地: 緯度 ");
    reveal_strlit("緯度 ");
    reveal_strlit(", 経度 ");
    reveal_strlit("経度 ");
    lemma_ends_with(head, "緯度 "@);
    lemma_ends_with(comma, "経度 "@);
    assert(y.subrange(0, y.len() as int) =~= y);
    assert(x.subrange(0, x.len() as int) =~= x);
    let e = Seq::<char>::empty();
    assert(e + head =~= head);
    lemma_has_across(e, head, "緯度 "@, y, y);
    lemma_reaches(head + y, comma, x, "緯度 "@ + y);
    lemma_has_more(head + y + comma + x, ")"@, "緯度 "@ + y);
    lemma_has_across(head + y, comma, "経度 "@, x, x);
    lemma_has_more(head + y + comma + x, ")"@, "経度 "@ + x);
    assert(lines[2] == head + y + comma + x + ")"@);
    if passes.len() == 0 {
        let m = fixed_text(min_el, 1);
        let none = "° 以上の通過パスは見つかりませんでした"@;
        reveal_strlit("° 以上の通過パスは見つかりませんでした");
        reveal_strlit("°");
        lemma_ends_with(m, m);
        assert("°"@.is_prefix_of(none)) by {
            assert(none.subrange(0, 1) =~= "°"@);
        }
        lemma_has_across("※ 仰角 "@, m, m, none, "°"@);
        assert(lines[6] == "※ 仰角 "@ + m + none);
    } else {
        assert(lines.subrange(6, lines.len() - 2) =~= passes.map_values(
            |p: SatellitePass| pass_line(p),
        ));
    }
}

/// The directory of a session is named by the second in which its pass begins: year, month and day,
/// then hour, minute and second, read back from their places.
pub proof fn law_session_stamp_reads_back(c: CivilTime)
    requires
        c.wf(),
        0 <= c.year <= 9999,
    ensures
        ({
            let s = stamp_text(c);
            &&& s.len() == 15
            &&& digits_value(s.subrange(0, 4)) == c.year
            &&& digits_value(s.subrange(4, 6)) == c.month
            &&& digits_value(s.subrange(6, 8)) == c.day
            &&& s[8] == '_'
            &&& digits_value(s.subrange(9, 11)) == c.hour
            &&& digits_value(s.subrange(11, 13)) == c.minute
            &&& digits_value(s.subrange(13, 15)) == c.second
        }),
{
    lemma_four_digits(c.year as nat);
    lemma_two_digits(c.month as nat);
    lemma_two_digits(c.day as nat);
    lemma_two_digits(c.hour as nat);
    lemma_two_digits(c.minute as nat);
    lemma_two_digits(c.second as nat);
    reveal_strlit("_");
    let s = stamp_text(c);
    assert(s.subrange(0, 4) =~= padded_digits(c.year as nat, 4));
    assert(s.subrange(4, 6) =~= padded_digits(c.month as nat, 2));
    assert(s.subrange(6, 8) =~= padded_digits(c.day as nat, 2));
    assert(s.subrange(9, 11) =~= padded_digits(c.hour as nat, 2));
    assert(s.subrange(11, 13) =~= padded_digits(c.minute as nat, 2));
    assert(s.subrange(13, 15) =~= padded_digits(c.second as nat, 2));
}

/// Two passes that begin in different seconds have different directories, so that no recording
/// overwrites another.
pub proof fn law_sessions_are_told_apart(
    output_dir: Seq<char>,
    p: SatellitePass,
    q: SatellitePass,
    a: CivilTime,
    b: CivilTime,
)
    requires
        is_jst_time(a, p.aos as int),
        is_jst_time(b, q.aos as int),
        0 <= a.year <= 9999,
        0 <= b.year <= 9999,
        session_dir_of(output_dir, p) == session_dir_of(output_dir, q),
    ensures
        p.aos as int / 1000 == q.aos as int / 1000,
{
    law_fields_are_unique(a, jst_of(p.aos as int));
    law_fields_are_unique(b, jst_of(q.aos as int));
    law_session_stamp_reads_back(a);
    law_session_stamp_reads_back(b);
    let s = stamp_text(a);
    let t = stamp_text(b);
    let x = s + "_"@ + without_spaces(p.satellite_name@);
    let y = t + "_"@ + without_spaces(q.satellite_name@);
    reveal_strlit("/");
    let front = joined(output_dir, Seq::empty());
    assert(joined(output_dir, x) =~= front + x);
    assert(joined(output_dir, y) =~= front + y);
    let whole = joined(output_dir, x);
    assert(whole.subrange(front.len() as int, front.len() as int + 15) =~= s);
    assert(whole.subrange(front.len() as int, front.len() as int + 15) =~= t);
    law_fields_are_unique(a, b);
}

/// The elements are due exactly where there are none, or where so many hours have gone by.
pub proof fn law_elements_are_due_by_their_age(now: int, last_update: int, hours: int)
    ensures
        elements_due(now, last_update, hours, false),
        elements_due(now, last_update, hours, true) <==> now >= last_update + hours * 60 * 60 * 1000,
{
}

/// A recording is kept in the directory of its session, as raw samples or as sound.
pub proof fn law_recordings_lie_in_their_session(dir: Seq<char>, signal: SignalType)
    ensures
        signal.raw_iq() ==> "raw.u8"@.is_suffix_of(recording_of(dir, signal)),
        !signal.raw_iq() ==> "raw.wav"@.is_suffix_of(recording_of(dir, signal)),
        dir.is_prefix_of(recording_of(dir, signal)),
{
    let path = recording_of(dir, signal);
    let name = if signal.raw_iq() {
        "raw.u8"@
    } else {
        "raw.wav"@
    };
    reveal_strlit("/");
    assert(path.subrange(path.len() - name.len(), path.len() as int) =~= name);
    assert(path.subrange(0, dir.len() as int) =~= dir);
}

/// While it waits, the scheduler sleeps as long as there is left, from one second to five, knows
/// how many whole seconds are left, and reports that once a minute while half a minute or more is
/// left.
pub proof fn law_waiting_is_reported(target: int, now: int, last_report: int)
    requires
        now < target,
        target - now <= 1000 * u64::MAX,
    ensures
        wait_step_at(target, now, last_report) matches WaitStep::Sleep {
            secs,
            report,
            remaining_secs,
        } && {
            &&& remaining_secs * 1000 <= target - now < remaining_secs * 1000 + 1000
            &&& 1 <= remaining_secs <= 5 ==> secs == remaining_secs
            &&& remaining_secs == 0 ==> secs == 1
            &&& remaining_secs > 5 ==> secs == 5
            &&& report <==> now >= last_report + 60_000 && target >= now + 30_000
        },
{
}

/// A time of day that does not exist is never due: the scheduler looks again a day later.
pub proof fn law_impossible_times_wait_a_day(
    now: int,
    last_sent: Option<i64>,
    hour: int,
    minute: int,
)
    requires
        hour >= 24 || minute >= 60,
    ensures
        next_due(now, last_sent, hour, minute) == now + 24 * 3_600_000,
{
}

/// A name loses its spaces and nothing else.
pub proof fn law_names_lose_their_spaces(s: Seq<char>, c: char)
    ensures
        without_spaces(s.push(c)) == if c == ' ' {
            without_spaces(s)
        } else {
            without_spaces(s).push(c)
        },
        without_spaces(Seq::empty()) == Seq::<char>::empty(),
{
    let keep = |x: char| x != ' ';
    crate::text::lemma_filter_push(s, c, keep);
    reveal(Seq::filter);
    assert(without_spaces(Seq::empty()) =~= Seq::<char>::empty());
}

/// The passes of a day keep their order: one more pass comes last where it begins on that day, and
/// else changes nothing.
pub proof fn law_passes_of_a_day_keep_their_order(
    passes: Seq<SatellitePass>,
    p: SatellitePass,
    day: int,
)
    ensures
        passes_on(passes.push(p), day) == if day * 86_400_000 <= p.aos + 9 * 3_600_000 < (day + 1)
            * 86_400_000 {
            passes_on(passes, day).push(p)
        } else {
            passes_on(passes, day)
        },
{
    let keep = |x: SatellitePass| day_of(x.aos as int) == day;
    crate::text::lemma_filter_push(passes, p, keep);
}

} // verus!
