//! The table of coming passes, and the daemon of the weather station.

use crate::binary64::{fixed_text, Binary64};
use crate::clock::{date_time_text, has_date, jst_of, jst_time};
use crate::config::SchedulerConfig;
use crate::discord::{format_mhz, mhz_text};
use crate::noaa::orbit::{lift, lift_all, SatellitePass};
use crate::path::{join, joined};
use crate::scheduler::{
    alert_time, elements_due, is_next_pass, pre_alert_time, session_dir_of, session_directory,
    tle_update_due,
};
use crate::text::{
    align_left, align_right, has_text, left_aligned, lemma_begins, lemma_ends_with,
    lemma_has_across, lemma_has_more, lemma_has_part, lemma_in_front, lemma_last_three,
    lemma_last_two, lemma_left_begins, lemma_reaches, lemma_right_ends, lemma_whole, push_text,
    right_aligned, texts,
};
use vstd::prelude::*;

verus! {

/// A line across the table.
pub open spec fn table_rule() -> Seq<char> {
    "=========================================================================================="@
}

/// The line of a pass in the table.
pub open spec fn pass_line(pass: SatellitePass) -> Seq<char> {
    left_aligned(pass.satellite_name@, 10) + " | "@ + right_aligned(
        mhz_text(pass.frequency_hz as nat),
        7,
    ) + " MHz | "@ + date_time_text(jst_of(pass.aos as int)) + " | "@ + date_time_text(
        jst_of(pass.los as int),
    ) + " | "@ + right_aligned(fixed_text(pass.max_elevation_deg, 1), 4) + "°"@
}

/// The lines of the table of the coming passes.
pub open spec fn schedule_lines(
    passes: Seq<SatellitePass>,
    lat: Binary64,
    lon: Binary64,
    min_el: Binary64,
) -> Seq<Seq<char>> {
    seq![
        Seq::<char>::empty(),
        table_rule(),
        "📡 NOAA 気象衛星 通過予定スケジュール (今後24時間 / 観測地: 緯度 "@ + fixed_text(
            lat,
            4,
        ) + ", 経度 "@ + fixed_text(lon, 4) + ")"@,
        table_rule(),
        left_aligned("衛星名"@, 10) + " | "@ + left_aligned("周波数"@, 12) + " | "@ + left_aligned(
            "通過開始 (AOS / JST)"@,
            20,
        ) + " | "@ + left_aligned("通過終了 (LOS / JST)"@, 20) + " | "@ + left_aligned(
            "最大仰角"@,
            10,
        ),
        "------------------------------------------------------------------------------------------"@,
    ] + (if passes.len() == 0 {
        seq![
            "※ 仰角 "@ + fixed_text(min_el, 1)
                + "° 以上の通過パスは見つかりませんでした"@,
        ]
    } else {
        Seq::new(passes.len(), |i: int| pass_line(passes[i]))
    }) + seq![table_rule(), Seq::<char>::empty()]
}

/// Every pass begins and ends at a time that has a date.
pub open spec fn dated(passes: Seq<SatellitePass>) -> bool {
    forall|i: int|
        0 <= i < passes.len() ==> has_date((#[trigger] passes[i]).aos as int) && has_date(
            passes[i].los as int,
        )
}

/// The line of a pass in the table.
fn format_pass(pass: &SatellitePass) -> (r: String)
    requires
        has_date(pass.aos as int),
        has_date(pass.los as int),
    ensures
        r@ == pass_line(*pass),
{
    let mut line: String = align_left(pass.satellite_name.as_str(), 10);
    line.append(" | ");
    line.append(align_right(format_mhz(pass.frequency_hz).as_str(), 7).as_str());
    line.append(" MHz | ");
    line.append(jst_time(pass.aos).format_date_time().as_str());
    line.append(" | ");
    line.append(jst_time(pass.los).format_date_time().as_str());
    line.append(" | ");
    line.append(align_right(pass.max_elevation_deg.fixed(1).as_str(), 4).as_str());
    line.append("°");
    line
}

/// The lines of the table of the coming passes.
pub fn show_schedule(
    passes: &[SatellitePass],
    lat: Binary64,
    lon: Binary64,
    min_el: Binary64,
) -> (r: Vec<String>)
    requires
        dated(passes@),
    ensures
        texts(r@) == schedule_lines(passes@, lat, lon, min_el),
{
    let rule: &str =
        "==========================================================================================";
    let mut r: Vec<String> = Vec::new();
    proof {
        reveal_strlit("");
        assert(""@ =~= Seq::<char>::empty());
    }
    push_text(&mut r, "");
    push_text(&mut r, rule);
    let mut line: String =
        "📡 NOAA 気象衛星 通過予定スケジュール (今後24時間 / 観測地: 緯度 ".to_owned();
    line.append(lat.fixed(4).as_str());
    line.append(", 経度 ");
    line.append(lon.fixed(4).as_str());
    line.append(")");
    push_text(&mut r, line.as_str());
    push_text(&mut r, rule);
    let mut line: String = align_left("衛星名", 10);
    line.append(" | ");
    line.append(align_left("周波数", 12).as_str());
    line.append(" | ");
    line.append(align_left("通過開始 (AOS / JST)", 20).as_str());
    line.append(" | ");
    line.append(align_left("通過終了 (LOS / JST)", 20).as_str());
    line.append(" | ");
    line.append(align_left("最大仰角", 10).as_str());
    push_text(&mut r, line.as_str());
    push_text(
        &mut r,
        "------------------------------------------------------------------------------------------",
    );
    let ghost head = texts(r@);
    let n: usize = passes.len();
    let ghost rows = Seq::new(passes@.len(), |i: int| pass_line(passes@[i]));
    if n == 0 {
        let mut line: String = "※ 仰角 ".to_owned();
        line.append(min_el.fixed(1).as_str());
        line.append("° 以上の通過パスは見つかりませんでした");
        push_text(&mut r, line.as_str());
    } else {
        let mut i: usize = 0;
        assert(texts(r@) =~= head + rows.take(0));
        while i < n
            invariant
                dated(passes@),
                n == passes@.len(),
                rows == Seq::new(passes@.len(), |i: int| pass_line(passes@[i])),
                i <= n,
                texts(r@) == head + rows.take(i as int),
            decreases n - i,
        {
            push_text(&mut r, format_pass(&passes[i]).as_str());
            i = i + 1;
            assert(texts(r@) =~= head + rows.take(i as int));
        }
        assert(rows.take(n as int) =~= rows);
    }
    push_text(&mut r, rule);
    push_text(&mut r, "");
    assert(texts(r@) =~= schedule_lines(passes@, lat, lon, min_el));
    r
}

/// What the daemon is busy with.
#[derive(Clone, Copy, Debug, PartialEq, Eq, Structural)]
pub enum Phase {
    /// Fetching the elements.
    Fetching,
    /// Predicting the passes.
    Planning,
    /// Waiting for the time to announce the pass.
    AwaitingAlert,
    /// Announcing the pass.
    Alerting,
    /// Waiting for the pass to begin.
    AwaitingAos,
    /// Starting the receiver.
    Starting,
    /// Recording until the pass ends.
    Recording,
    /// Stopping the receiver.
    Stopping,
    /// Stopping the receiver because the daemon is to end.
    StoppingForGood,
    /// Decoding the recording.
    Decoding,
    /// Saying what came of it.
    Reporting,
    /// Resting before the next round.
    Resting,
    /// Nothing more.
    Ended,
}

/// What the daemon has to do next.
#[derive(Debug)]
pub enum Action {
    FetchElements,
    Predict,
    Speak { text: String },
    /// Sleep for some seconds; a request to end interrupts it only where that is said.
    Sleep { secs: u64, interruptible: bool },
    StartReceiver { frequency_hz: u64, path: String },
    StopReceiver,
    Decode { recording: String, image: String, session_dir: String },
    Quit,
}

/// What the daemon has to do next, as plain values.
pub enum ActionText {
    FetchElements,
    Predict,
    Speak { text: Seq<char> },
    Sleep { secs: int, interruptible: bool },
    StartReceiver { frequency_hz: u64, path: Seq<char> },
    StopReceiver,
    Decode { recording: Seq<char>, image: Seq<char>, session_dir: Seq<char> },
    Quit,
}

impl View for Action {
    type V = ActionText;

    open spec fn view(&self) -> ActionText {
        match self {
            Action::FetchElements => ActionText::FetchElements,
            Action::Predict => ActionText::Predict,
            Action::Speak { text } => ActionText::Speak { text: text@ },
            Action::Sleep { secs, interruptible } => ActionText::Sleep {
                secs: *secs as int,
                interruptible: *interruptible,
            },
            Action::StartReceiver { frequency_hz, path } => ActionText::StartReceiver {
                frequency_hz: *frequency_hz,
                path: path@,
            },
            Action::StopReceiver => ActionText::StopReceiver,
            Action::Decode { recording, image, session_dir } => ActionText::Decode {
                recording: recording@,
                image: image@,
                session_dir: session_dir@,
            },
            Action::Quit => ActionText::Quit,
        }
    }
}

/// What happened.
#[derive(Debug)]
pub enum Event {
    /// The elements of so many satellites were fetched.
    Elements { count: usize },
    /// The elements could not be fetched.
    NoElements,
    /// The next pass, where there is one within a day.
    Planned { next: Option<SatellitePass> },
    /// The passes could not be predicted.
    NotPlanned,
    /// The receiver was started, or not.
    Started { running: bool },
    /// The recording was decoded, or not.
    Decoded { success: bool },
    /// What was to be done is done.
    Done,
    /// The sleep was interrupted: the daemon is to end.
    Interrupted,
}

/// The daemon.
#[derive(Debug)]
pub struct Daemon {
    pub phase: Phase,
    /// When this round began.
    pub round_start: i64,
    /// When the elements were last fetched.
    pub last_update: i64,
    /// Whether there are elements.
    pub known: bool,
    /// Whether the sleep that goes on can be interrupted.
    pub interruptible: bool,
    /// The pass that it follows.
    pub pass: Option<SatellitePass>,
}

/// The daemon follows a pass in this phase.
pub open spec fn has_pass(phase: Phase) -> bool {
    match phase {
        Phase::AwaitingAlert
        | Phase::Alerting
        | Phase::AwaitingAos
        | Phase::Starting
        | Phase::Recording
        | Phase::Stopping
        | Phase::Decoding => true,
        _ => false,
    }
}

impl Daemon {
    /// The daemon has the pass that its phase needs.
    pub open spec fn wf(self) -> bool {
        has_pass(self.phase) ==> self.pass is Some && has_date(self.pass->0.aos as int)
    }

    /// What can happen in a phase.
    pub open spec fn expects(self, event: Event) -> bool {
        match self.phase {
            Phase::Fetching => event is Elements || event is NoElements,
            Phase::Planning => event is Planned || event is NotPlanned,
            Phase::Starting => event is Started,
            Phase::Decoding => event is Decoded,
            Phase::AwaitingAlert | Phase::AwaitingAos | Phase::Recording => event is Done
                || event is Interrupted,
            Phase::Resting => event is Done || (event is Interrupted && self.interruptible),
            Phase::Ended => false,
            _ => event is Done,
        }
    }
}

/// The pass in an event begins at a time that has a date.
pub open spec fn dated_event(event: Event) -> bool {
    event matches Event::Planned { next: Some(p) } ==> has_date(p.aos as int)
}

/// The whole seconds until `time`, at least `least`.
pub open spec fn seconds_until(time: int, now: int, least: int) -> int {
    if (time - now) / 1000 < least {
        least
    } else {
        (time - now) / 1000
    }
}

/// What is said before a pass.
pub open spec fn alert(pass: SatellitePass) -> Seq<char> {
    "まもなく"@ + pass.satellite_name@ + "が通過するのだ！最大仰角は"@ + fixed_text(
        pass.max_elevation_deg,
        0,
    ) + "度、受信を試みるのだ！"@
}

/// What is said after a recording was decoded, or not.
pub open spec fn report(pass: SatellitePass, success: bool) -> Seq<char> {
    if success {
        pass.satellite_name@ + "の受信とデコードに成功したのだ！新しい画像を確認するのだ！"@
    } else {
        "画像のデコードに失敗したのだ…電波が弱かったかもしれないのだ"@
    }
}

/// A new round begins.
pub open spec fn new_round(d: Daemon, config: SchedulerConfig, now: i64) -> (Daemon, ActionText) {
    if elements_due(
        now as int,
        d.last_update as int,
        config.tle_update_interval_hours as int,
        d.known,
    ) {
        (Daemon { phase: Phase::Fetching, round_start: now, ..d }, ActionText::FetchElements)
    } else {
        (Daemon { phase: Phase::Planning, round_start: now, ..d }, ActionText::Predict)
    }
}

/// The daemon rests.
pub open spec fn rest(d: Daemon, secs: int, interruptible: bool) -> (Daemon, ActionText) {
    (
        Daemon { phase: Phase::Resting, interruptible, ..d },
        ActionText::Sleep { secs, interruptible },
    )
}

/// The receiver is started.
pub open spec fn begin_recording(d: Daemon, output_dir: Seq<char>) -> (Daemon, ActionText) {
    (
        Daemon { phase: Phase::Starting, ..d },
        ActionText::StartReceiver {
            frequency_hz: d.pass->0.frequency_hz,
            path: joined(session_dir_of(output_dir, lift(d.pass->0)), "raw.wav"@),
        },
    )
}

/// The daemon ends.
pub open spec fn quit(d: Daemon) -> (Daemon, ActionText) {
    (Daemon { phase: Phase::Ended, ..d }, ActionText::Quit)
}

/// What the daemon does next.
pub open spec fn next(
    d: Daemon,
    event: Event,
    now: i64,
    config: SchedulerConfig,
    output_dir: Seq<char>,
) -> (Daemon, ActionText) {
    let pass = d.pass->0;
    match d.phase {
        Phase::Fetching => match event {
            Event::Elements { count } => (
                Daemon {
                    phase: Phase::Planning,
                    known: count > 0,
                    last_update: d.round_start,
                    ..d
                },
                ActionText::Predict,
            ),
            _ => if d.known {
                (Daemon { phase: Phase::Planning, ..d }, ActionText::Predict)
            } else {
                rest(d, 60, true)
            },
        },
        Phase::Planning => match event {
            Event::Planned { next: Some(p) } => {
                let with = Daemon { pass: Some(p), ..d };
                let time = alert_time(p.aos as int, config.pre_alert_minutes);
                if time > d.round_start {
                    (
                        Daemon { phase: Phase::AwaitingAlert, ..with },
                        ActionText::Sleep {
                            secs: seconds_until(time, d.round_start as int, 0),
                            interruptible: true,
                        },
                    )
                } else {
                    (
                        Daemon { phase: Phase::Alerting, ..with },
                        ActionText::Speak { text: alert(p) },
                    )
                }
            },
            Event::Planned { next: None } => rest(d, 3600, true),
            _ => rest(d, 60, true),
        },
        Phase::AwaitingAlert => if event is Interrupted {
            quit(d)
        } else {
            (Daemon { phase: Phase::Alerting, ..d }, ActionText::Speak { text: alert(pass) })
        },
        Phase::Alerting => if pass.aos > now {
            (
                Daemon { phase: Phase::AwaitingAos, ..d },
                ActionText::Sleep {
                    secs: seconds_until(pass.aos as int, now as int, 0),
                    interruptible: true,
                },
            )
        } else {
            begin_recording(d, output_dir)
        },
        Phase::AwaitingAos => if event is Interrupted {
            quit(d)
        } else {
            begin_recording(d, output_dir)
        },
        Phase::Starting => match event {
            Event::Started { running: true } => if pass.los > now {
                (
                    Daemon { phase: Phase::Recording, ..d },
                    ActionText::Sleep {
                        secs: seconds_until(pass.los as int, now as int, 1),
                        interruptible: true,
                    },
                )
            } else {
                (Daemon { phase: Phase::Stopping, ..d }, ActionText::StopReceiver)
            },
            _ => new_round(d, config, now),
        },
        Phase::Recording => if event is Interrupted {
            (Daemon { phase: Phase::StoppingForGood, ..d }, ActionText::StopReceiver)
        } else {
            (Daemon { phase: Phase::Stopping, ..d }, ActionText::StopReceiver)
        },
        Phase::Stopping => {
            let dir = session_dir_of(output_dir, lift(pass));
            (
                Daemon { phase: Phase::Decoding, ..d },
                ActionText::Decode {
                    recording: joined(dir, "raw.wav"@),
                    image: joined(dir, "image.png"@),
                    session_dir: dir,
                },
            )
        },
        Phase::StoppingForGood => quit(d),
        Phase::Decoding => (
            Daemon { phase: Phase::Reporting, ..d },
            ActionText::Speak { text: report(pass, event == (Event::Decoded { success: true })) },
        ),
        Phase::Reporting => rest(d, 10, false),
        Phase::Resting => if event is Interrupted {
            quit(d)
        } else {
            new_round(d, config, now)
        },
        Phase::Ended => quit(d),
    }
}

/// What is said before a pass.
pub fn alert_text(pass: &SatellitePass) -> (r: String)
    ensures
        r@ == alert(*pass),
{
    let mut r: String = "まもなく".to_owned();
    r.append(pass.satellite_name.as_str());
    r.append("が通過するのだ！最大仰角は");
    r.append(pass.max_elevation_deg.fixed(0).as_str());
    r.append("度、受信を試みるのだ！");
    r
}

/// What is said after a recording was decoded, or not.
pub fn report_text(pass: &SatellitePass, success: bool) -> (r: String)
    ensures
        r@ == report(*pass, success),
{
    if success {
        let mut r: String = pass.satellite_name.as_str().to_owned();
        r.append("の受信とデコードに成功したのだ！新しい画像を確認するのだ！");
        r
    } else {
        "画像のデコードに失敗したのだ…電波が弱かったかもしれないのだ".to_owned()
    }
}

/// The whole seconds until a time that lies ahead, at least `least`.
fn sleep_until(time: i64, now: i64, least: u64) -> (r: u64)
    requires
        time > now,
    ensures
        r == seconds_until(time as int, now as int, least as int),
{
    let secs: u64 = ((time as i128 - now as i128) / 1000) as u64;
    if secs < least {
        least
    } else {
        secs
    }
}

/// The directory of the session of a pass.
fn directory(output_dir: &str, pass: &SatellitePass) -> (r: String)
    requires
        has_date(pass.aos as int),
    ensures
        r@ == session_dir_of(output_dir@, lift(*pass)),
{
    let full: crate::orbit::SatellitePass = crate::orbit::SatellitePass {
        satellite_name: pass.satellite_name.clone(),
        frequency_hz: pass.frequency_hz,
        signal_type: crate::orbit::SignalType::Apt,
        aos: pass.aos,
        los: pass.los,
        max_elevation_deg: pass.max_elevation_deg,
        peak_azimuth_deg: pass.peak_azimuth_deg,
    };
    session_directory(output_dir, &full)
}

/// A copy of a pass.
fn copy_pass(p: &SatellitePass) -> (r: SatellitePass)
    ensures
        r == *p,
{
    SatellitePass {
        satellite_name: p.satellite_name.clone(),
        frequency_hz: p.frequency_hz,
        aos: p.aos,
        los: p.los,
        max_elevation_deg: p.max_elevation_deg,
        peak_azimuth_deg: p.peak_azimuth_deg,
    }
}

/// The pass that the daemon follows.
fn followed(pass: &Option<SatellitePass>) -> (r: SatellitePass)
    requires
        pass is Some,
    ensures
        r == pass->0,
{
    copy_pass(pass.as_ref().unwrap())
}

/// The first of the passes that is not over.
pub fn next_pass(passes: &[SatellitePass], now: i64) -> (r: Option<SatellitePass>)
    ensures
        match r {
            Some(p) => exists|i: int| #[trigger]
                is_next_pass(lift_all(passes@), now as int, i) && passes@[i] == p,
            None => forall|i: int| 0 <= i < passes@.len() ==> (#[trigger] passes@[i]).los <= now,
        },
{
    let ghost all = lift_all(passes@);
    let mut i: usize = 0;
    while i < passes.len()
        invariant
            all == lift_all(passes@),
            i <= passes@.len(),
            forall|j: int| 0 <= j < i ==> (#[trigger] passes@[j]).los <= now,
        decreases passes@.len() - i,
    {
        if passes[i].los > now {
            proof {
                assert forall|j: int| 0 <= j < i implies (#[trigger] all[j]).los <= now by {
                    assert(passes@[j].los <= now);
                }
                assert(is_next_pass(all, now as int, i as int));
            }
            return Some(copy_pass(&passes[i]));
        }
        i = i + 1;
    }
    None
}

impl Daemon {
    /// A new round begins.
    fn begin_round(&mut self, config: &SchedulerConfig, now: i64) -> (r: Action)
        ensures
            (*final(self), r@) == new_round(*old(self), *config, now),
    {
        self.round_start = now;
        if tle_update_due(now, self.last_update, config.tle_update_interval_hours, self.known) {
            self.phase = Phase::Fetching;
            Action::FetchElements
        } else {
            self.phase = Phase::Planning;
            Action::Predict
        }
    }

    /// The daemon rests.
    fn take_rest(&mut self, secs: u64, interruptible: bool) -> (r: Action)
        ensures
            (*final(self), r@) == rest(*old(self), secs as int, interruptible),
    {
        self.phase = Phase::Resting;
        self.interruptible = interruptible;
        Action::Sleep { secs, interruptible }
    }

    /// The receiver is started.
    fn start_receiver(&mut self, output_dir: &str) -> (r: Action)
        requires
            old(self).pass is Some,
            has_date(old(self).pass->0.aos as int),
        ensures
            (*final(self), r@) == begin_recording(*old(self), output_dir@),
    {
        let pass: SatellitePass = followed(&self.pass);
        self.phase = Phase::Starting;
        let dir: String = directory(output_dir, &pass);
        Action::StartReceiver {
            frequency_hz: pass.frequency_hz,
            path: join(dir.as_str(), "raw.wav"),
        }
    }

    /// The daemon ends.
    fn leave(&mut self) -> (r: Action)
        ensures
            (*final(self), r@) == quit(*old(self)),
    {
        self.phase = Phase::Ended;
        Action::Quit
    }

    /// A daemon that starts at `now`, and what it does first: it has no elements yet.
    pub fn start(now: i64) -> (r: (Self, Action))
        ensures
            r.0.wf(),
            r.0.phase == Phase::Fetching,
            r.0.round_start == now,
            r.0.last_update == now,
            !r.0.known,
            r.0.pass is None,
            r.1@ == ActionText::FetchElements,
    {
        (
            Daemon {
                phase: Phase::Fetching,
                round_start: now,
                last_update: now,
                known: false,
                interruptible: false,
                pass: None,
            },
            Action::FetchElements,
        )
    }

    /// What the daemon does next, after `event` at `now`.
    pub fn step(
        &mut self,
        event: Event,
        now: i64,
        config: &SchedulerConfig,
        output_dir: &str,
    ) -> (r: Action)
        requires
            old(self).wf(),
            old(self).expects(event),
            dated_event(event),
        ensures
            final(self).wf(),
            (*final(self), r@) == next(*old(self), event, now, *config, output_dir@),
    {
        match self.phase {
            Phase::Fetching => match event {
                Event::Elements { count } => {
                    self.phase = Phase::Planning;
                    self.known = count > 0;
                    self.last_update = self.round_start;
                    Action::Predict
                },
                _ => if self.known {
                    self.phase = Phase::Planning;
                    Action::Predict
                } else {
                    self.take_rest(60, true)
                },
            },
            Phase::Planning => match event {
                Event::Planned { next: found } => match found {
                    Some(p) => {
                        let time: i64 = pre_alert_time(p.aos, config.pre_alert_minutes);
                        if time > self.round_start {
                            self.pass = Some(p);
                            self.phase = Phase::AwaitingAlert;
                            Action::Sleep {
                                secs: sleep_until(time, self.round_start, 0),
                                interruptible: true,
                            }
                        } else {
                            let text: String = alert_text(&p);
                            self.pass = Some(p);
                            self.phase = Phase::Alerting;
                            Action::Speak { text }
                        }
                    },
                    None => self.take_rest(3600, true),
                },
                _ => self.take_rest(60, true),
            },
            Phase::AwaitingAlert => match event {
                Event::Interrupted => self.leave(),
                _ => {
                    let pass: SatellitePass = followed(&self.pass);
                    self.phase = Phase::Alerting;
                    Action::Speak { text: alert_text(&pass) }
                },
            },
            Phase::Alerting => {
                let pass: SatellitePass = followed(&self.pass);
                if pass.aos > now {
                    self.phase = Phase::AwaitingAos;
                    Action::Sleep { secs: sleep_until(pass.aos, now, 0), interruptible: true }
                } else {
                    self.start_receiver(output_dir)
                }
            },
            Phase::AwaitingAos => match event {
                Event::Interrupted => self.leave(),
                _ => self.start_receiver(output_dir),
            },
            Phase::Starting => {
                let running: bool = match event {
                    Event::Started { running } => running,
                    _ => false,
                };
                if running {
                    let pass: SatellitePass = followed(&self.pass);
                    if pass.los > now {
                        self.phase = Phase::Recording;
                        Action::Sleep { secs: sleep_until(pass.los, now, 1), interruptible: true }
                    } else {
                        self.phase = Phase::Stopping;
                        Action::StopReceiver
                    }
                } else {
                    self.begin_round(config, now)
                }
            },
            Phase::Recording => match event {
                Event::Interrupted => {
                    self.phase = Phase::StoppingForGood;
                    Action::StopReceiver
                },
                _ => {
                    self.phase = Phase::Stopping;
                    Action::StopReceiver
                },
            },
            Phase::Stopping => {
                let pass: SatellitePass = followed(&self.pass);
                self.phase = Phase::Decoding;
                let dir: String = directory(output_dir, &pass);
                Action::Decode {
                    recording: join(dir.as_str(), "raw.wav"),
                    image: join(dir.as_str(), "image.png"),
                    session_dir: dir,
                }
            },
            Phase::StoppingForGood => self.leave(),
            Phase::Decoding => {
                let pass: SatellitePass = followed(&self.pass);
                let success: bool = match event {
                    Event::Decoded { success } => success,
                    _ => false,
                };
                self.phase = Phase::Reporting;
                Action::Speak { text: report_text(&pass, success) }
            },
            Phase::Reporting => self.take_rest(10, false),
            Phase::Resting => match event {
                Event::Interrupted => self.leave(),
                _ => self.begin_round(config, now),
            },
            Phase::Ended => self.leave(),
        }
    }
}

/// A receiver that runs is stopped before anything else is done.
pub proof fn law_receiver_is_always_stopped(
    d: Daemon,
    event: Event,
    now: i64,
    config: SchedulerConfig,
    output_dir: Seq<char>,
)
    requires
        d.wf(),
        d.expects(event),
    ensures
        d.phase == Phase::Recording ==> next(d, event, now, config, output_dir).1
            == ActionText::StopReceiver,
        d.phase == Phase::Starting && event == (Event::Started { running: true }) ==> {
            let n = next(d, event, now, config, output_dir);
            n.0.phase == Phase::Recording || n.1 == ActionText::StopReceiver
        },
        next(d, event, now, config, output_dir).1 == ActionText::Quit ==> d.phase
            != Phase::Recording && d.phase != Phase::Stopping,
{
}

/// How many steps at most lie between a phase and the start of the receiver.
pub open spec fn steps_to_receiver(phase: Phase) -> nat {
    match phase {
        Phase::AwaitingAlert => 3,
        Phase::Alerting => 2,
        Phase::AwaitingAos => 1,
        _ => 0,
    }
}

/// Every pass that the daemon follows is recorded: unless the daemon is told to end, each step
/// brings it nearer to the start of the receiver, with the same pass; it does nothing on the way
/// but speak and sleep, and it starts the receiver with the frequency of that pass, once the pass
/// has begun or was waited for.
pub proof fn law_every_followed_pass_is_recorded(
    d: Daemon,
    now: i64,
    config: SchedulerConfig,
    output_dir: Seq<char>,
)
    requires
        d.wf(),
        steps_to_receiver(d.phase) > 0,
    ensures
        ({
            let n = next(d, Event::Done, now, config, output_dir);
            &&& n.0.pass == d.pass
            &&& steps_to_receiver(n.0.phase) < steps_to_receiver(d.phase)
            &&& n.0.phase == Phase::Starting <==> d.phase == Phase::AwaitingAos || (d.phase
                == Phase::Alerting && d.pass->0.aos <= now)
            &&& n.0.phase == Phase::Starting ==> (n.1 matches ActionText::StartReceiver {
                frequency_hz,
                ..
            } && frequency_hz == d.pass->0.frequency_hz)
            &&& n.0.phase == Phase::AwaitingAos ==> (n.1 matches ActionText::Sleep { secs, .. }
                && now + 1000 * secs <= d.pass->0.aos < now + 1000 * secs + 1000)
            &&& n.0.phase != Phase::Starting ==> n.1 is Speak || n.1 is Sleep
        }),
{
}

/// The daemon follows the pass that was found for it, and sleeps until it is due to be announced,
/// to the second.
pub proof fn law_planned_pass_is_followed(
    d: Daemon,
    p: SatellitePass,
    now: i64,
    config: SchedulerConfig,
    output_dir: Seq<char>,
)
    requires
        d.wf(),
        d.phase == Phase::Planning,
    ensures
        ({
            let time = alert_time(p.aos as int, config.pre_alert_minutes);
            let n = next(d, Event::Planned { next: Some(p) }, now, config, output_dir);
            &&& n.0.pass == Some(p)
            &&& n.0.phase == Phase::AwaitingAlert || n.0.phase == Phase::Alerting
            &&& time > d.round_start ==> (n.1 matches ActionText::Sleep { secs, .. }
                && d.round_start + 1000 * secs <= time < d.round_start + 1000 * secs + 1000)
            &&& time <= d.round_start ==> n.1 == (ActionText::Speak { text: alert(p) })
        }),
{
}

/// A pass that is recorded is recorded to its end, to the second, and decoded: the daemon sleeps
/// while the end lies ahead, stops the receiver and decodes the very file that it was started
/// with. What is said then is what came of it, and after a short sleep the next round begins.
pub proof fn law_recordings_are_decoded(
    d: Daemon,
    success: bool,
    t1: i64,
    now: i64,
    t3: i64,
    t4: i64,
    t5: i64,
    t6: i64,
    config: SchedulerConfig,
    output_dir: Seq<char>,
)
    requires
        d.wf(),
        d.phase == Phase::AwaitingAos,
    ensures
        ({
            let start = next(d, Event::Done, t1, config, output_dir);
            let record = next(start.0, Event::Started { running: true }, now, config, output_dir);
            let stop = if d.pass->0.los > now {
                next(record.0, Event::Done, t3, config, output_dir)
            } else {
                record
            };
            let decode = next(stop.0, Event::Done, t4, config, output_dir);
            let say = next(decode.0, Event::Decoded { success }, t5, config, output_dir);
            let idle = next(say.0, Event::Done, t6, config, output_dir);
            &&& d.pass->0.los > now ==> (record.1 matches ActionText::Sleep { secs, .. } && secs
                >= 1 && d.pass->0.los < now + 1000 * secs + 1000 && (d.pass->0.los - now >= 1000
                ==> now + 1000 * secs <= d.pass->0.los))
            &&& stop.1 == ActionText::StopReceiver
            &&& start.1 matches ActionText::StartReceiver { path, .. } && (decode.1 matches
                ActionText::Decode { recording, image, session_dir } && recording == path
                && session_dir == session_dir_of(output_dir, lift(d.pass->0)) && recording
                == joined(session_dir, "raw.wav"@) && image == joined(session_dir, "image.png"@))
            &&& say.1 == (ActionText::Speak { text: report(d.pass->0, success) })
            &&& idle.1 == (ActionText::Sleep { secs: 10, interruptible: false })
        }),
{
}

/// What goes wrong ends nothing: it leads to another round, at once or after a rest, of an hour
/// where there is no pass and of a minute where something failed.
pub proof fn law_failures_lead_to_another_round(
    d: Daemon,
    event: Event,
    now: i64,
    later: i64,
    config: SchedulerConfig,
    output_dir: Seq<char>,
)
    requires
        d.wf(),
        d.expects(event),
        event == (Event::Started { running: false }) || event is NotPlanned || event
            == (Event::Planned { next: None }) || (event is NoElements && !d.known),
    ensures
        ({
            let n = next(d, event, now, config, output_dir);
            let m = next(n.0, Event::Done, later, config, output_dir);
            &&& event is Started ==> n.1 is FetchElements || n.1 is Predict
            &&& event is Planned ==> n.1 == (ActionText::Sleep { secs: 3600, interruptible: true })
            &&& event is NotPlanned || event is NoElements ==> n.1 == (ActionText::Sleep {
                secs: 60,
                interruptible: true,
            })
            &&& !(event is Started) ==> m.1 is FetchElements || m.1 is Predict
            &&& event is NoElements ==> m.1 is FetchElements
            &&& n.0.known == d.known
            &&& n.0.last_update == d.last_update
        }),
{
}

/// The elements are fetched when there are none or when they have come to their age in hours, and
/// only then; old elements serve on where new ones cannot be had, and their age goes on.
pub proof fn law_elements_are_kept_fresh(
    d: Daemon,
    count: usize,
    now: i64,
    config: SchedulerConfig,
    output_dir: Seq<char>,
)
    requires
        d.wf(),
    ensures
        d.phase == Phase::Resting ==> ({
            let n = next(d, Event::Done, now, config, output_dir);
            &&& n.1 is FetchElements <==> (!d.known || now - d.last_update
                >= config.tle_update_interval_hours * 3_600_000)
            &&& n.1 is Predict <==> !(n.1 is FetchElements)
            &&& n.0.round_start == now
            &&& n.0.last_update == d.last_update
        }),
        d.phase == Phase::Fetching ==> ({
            let n = next(d, Event::Elements { count }, now, config, output_dir);
            n.1 is Predict && n.0.last_update == d.round_start && n.0.known == (count > 0)
        }),
        d.phase == Phase::Fetching && d.known ==> ({
            let n = next(d, Event::NoElements, now, config, output_dir);
            n.1 is Predict && n.0.known && n.0.last_update == d.last_update
        }),
{
}

/// A request to end is obeyed: at once, or once the receiver is stopped.
pub proof fn law_interruption_ends_the_daemon(
    d: Daemon,
    now: i64,
    later: i64,
    config: SchedulerConfig,
    output_dir: Seq<char>,
)
    requires
        d.wf(),
        d.expects(Event::Interrupted),
    ensures
        ({
            let n = next(d, Event::Interrupted, now, config, output_dir);
            if d.phase == Phase::Recording {
                n.1 == ActionText::StopReceiver && next(
                    n.0,
                    Event::Done,
                    later,
                    config,
                    output_dir,
                ).1 == ActionText::Quit
            } else {
                n.1 == ActionText::Quit && n.0.phase == Phase::Ended
            }
        }),
{
}

/// What is said names the satellite, and only a success is reported as one.
pub proof fn law_what_is_said_names_the_satellite(pass: SatellitePass)
    ensures
        has_text(alert(pass), pass.satellite_name@),
        has_text(alert(pass), fixed_text(pass.max_elevation_deg, 0) + "度"@),
        has_text(report(pass, true), pass.satellite_name@),
        has_text(report(pass, true), "成功"@),
        has_text(report(pass, false), "失敗"@),
{
    let name = pass.satellite_name@;
    let soon = "まもなく"@;
    let passing = "が通過するのだ！最大仰角は"@;
    let el = fixed_text(pass.max_elevation_deg, 0);
    let tail = "度、受信を試みるのだ！"@;
    reveal_strlit("度");
    reveal_strlit("度、受信を試みるのだ！");
    assert(alert(pass) =~= soon + name + (passing + el + tail));
    lemma_has_part(soon, name, passing + el + tail);
    assert(tail =~= "度"@ + tail.skip(1));
    assert(alert(pass) =~= (soon + name + passing) + (el + "度"@) + tail.skip(1));
    lemma_has_part(soon + name + passing, el + "度"@, tail.skip(1));
    let well = "の受信とデコードに成功したのだ！新しい画像を確認するのだ！"@;
    reveal_strlit("の受信とデコードに成功したのだ！新しい画像を確認するのだ！");
    reveal_strlit("成功");
    reveal_strlit("失敗");
    reveal_strlit("画像のデコードに失敗したのだ…電波が弱かったかもしれないのだ");
    assert(report(pass, true) =~= Seq::<char>::empty() + name + well);
    lemma_has_part(Seq::empty(), name, well);
    assert(well.subrange(9, 11) =~= "成功"@);
    assert(report(pass, true) =~= (name + well.take(9)) + "成功"@ + well.skip(11));
    lemma_has_part(name + well.take(9), "成功"@, well.skip(11));
    let badly = report(pass, false);
    assert(badly.subrange(8, 10) =~= "失敗"@);
    assert(badly =~= badly.take(8) + "失敗"@ + badly.skip(10));
    lemma_has_part(badly.take(8), "失敗"@, badly.skip(10));
}

/// The line of a pass shows its satellite, its frequency, its beginning and then its end, and how
/// high it comes.
pub proof fn law_table_line_shows_the_pass(pass: SatellitePass)
    ensures
        ({
            let line = pass_line(pass);
            &&& pass.satellite_name@.is_prefix_of(line)
            &&& has_text(line, mhz_text(pass.frequency_hz as nat) + " MHz"@)
            &&& has_text(
                line,
                date_time_text(jst_of(pass.aos as int)) + " | "@ + date_time_text(
                    jst_of(pass.los as int),
                ),
            )
            &&& (fixed_text(pass.max_elevation_deg, 1) + "°"@).is_suffix_of(line)
        }),
{
    let name = pass.satellite_name@;
    let mhz = mhz_text(pass.frequency_hz as nat);
    let begun = date_time_text(jst_of(pass.aos as int));
    let ended = date_time_text(jst_of(pass.los as int));
    let el = fixed_text(pass.max_elevation_deg, 1);
    let bar = " | "@;
    let unit = " MHz | "@;
    reveal_strlit(" MHz | ");
    reveal_strlit(" MHz");
    let a = left_aligned(name, 10);
    let b = right_aligned(mhz, 7);
    let d = right_aligned(el, 4);
    lemma_left_begins(name, 10);
    lemma_right_ends(mhz, 7);
    lemma_right_ends(el, 4);
    assert(" MHz"@.is_prefix_of(unit)) by {
        assert(unit.subrange(0, 4) =~= " MHz"@);
    }
    let to_unit = a + bar + b + unit;
    let to_ended = to_unit + begun + bar + ended;
    let to_d = to_ended + bar + d;
    let line = to_d + "°"@;
    assert(line == pass_line(pass));
    let w = mhz + " MHz"@;
    lemma_has_across(a + bar, b, mhz, unit, " MHz"@);
    lemma_has_more(to_unit, begun, w);
    lemma_reaches(to_unit + begun, bar, ended, w);
    lemma_reaches(to_ended, bar, d, w);
    lemma_has_more(to_d, "°"@, w);
    let y = begun + bar + ended;
    lemma_last_three(to_unit, begun, bar, ended);
    lemma_reaches(to_ended, bar, d, y);
    lemma_has_more(to_d, "°"@, y);
    lemma_whole(line);
    lemma_in_front(to_d, "°"@, line);
    lemma_in_front(to_ended + bar, d, line);
    lemma_in_front(to_ended, bar, line);
    lemma_in_front(to_unit + begun + bar, ended, line);
    lemma_in_front(to_unit + begun, bar, line);
    lemma_in_front(to_unit, begun, line);
    lemma_in_front(a + bar + b, unit, line);
    lemma_in_front(a + bar, b, line);
    lemma_in_front(a, bar, line);
    lemma_begins(name, a, line);
    lemma_last_two(to_ended + bar, d, el, "°"@);
}

/// The table has a line for every pass, in their order, and says where the station stands.
pub proof fn law_table_shows_every_pass(
    passes: Seq<SatellitePass>,
    lat: Binary64,
    lon: Binary64,
    min_el: Binary64,
)
    ensures
        ({
            let lines = schedule_lines(passes, lat, lon, min_el);
            &&& passes.len() > 0 ==> lines.subrange(6, lines.len() - 2)
                == passes.map_values(|p: SatellitePass| pass_line(p))
            &&& passes.len() == 0 ==> lines.len() == 9 && has_text(
                lines[6],
                fixed_text(min_el, 1) + "°"@,
            )
            &&& has_text(lines[2], "緯度 "@ + fixed_text(lat, 4))
            &&& has_text(lines[2], "経度 "@ + fixed_text(lon, 4))
        }),
{
    let lines = schedule_lines(passes, lat, lon, min_el);
    let y = fixed_text(lat, 4);
    let x = fixed_text(lon, 4);
    let head = "📡 NOAA 気象衛星 通過予定スケジュール (今後24時間 / 観測地: 緯度 "@;
    let comma = ", 経度 "@;
    reveal_strlit("📡 NOAA 気象衛星 通過予定スケジュール (今後24時間 / 観測地: 緯度 ");
    reveal_strlit("緯度 ");
    reveal_strlit(", 経度 ");
    reveal_strlit("経度 ");
    lemma_ends_with(head, "緯度 "@);
    lemma_ends_with(comma, "経度 "@);
    assert(y.subrange(0, y.len() as int) =~= y);
    assert(x.subrange(0, x.len() as int) =~= x);
    let e = Seq::<char>::empty();
    assert(e + head =~= head);
    lemma_has_across(e, head, "緯度 "@, y, y);
    lemma_reaches(head + y, comma, x, "緯度 "@ + y);
    lemma_has_more(head + y + comma + x, ")"@, "緯度 "@ + y);
    lemma_has_across(head + y, comma, "経度 "@, x, x);
    lemma_has_more(head + y + comma + x, ")"@, "経度 "@ + x);
    assert(lines[2] == head + y + comma + x + ")"@);
    if passes.len() == 0 {
        let m = fixed_text(min_el, 1);
        let none = "° 以上の通過パスは見つかりませんでした"@;
        reveal_strlit("° 以上の通過パスは見つかりませんでした");
        reveal_strlit("°");
        lemma_ends_with(m, m);
        assert("°"@.is_prefix_of(none)) by {
            assert(none.subrange(0, 1) =~= "°"@);
        }
        lemma_has_across("※ 仰角 "@, m, m, none, "°"@);
        assert(lines[6] == "※ 仰角 "@ + m + none);
    } else {
        assert(lines.subrange(6, lines.len() - 2) =~= passes.map_values(
            |p: SatellitePass| pass_line(p),
        ));
    }
}

/// The plain values of an action are those that it is carried out with.
pub proof fn law_actions_are_what_they_say(a: Action)
    ensures
        a is FetchElements <==> a@ is FetchElements,
        a is Predict <==> a@ is Predict,
        a is StopReceiver <==> a@ is StopReceiver,
        a is Quit <==> a@ is Quit,
        a matches Action::Speak { text } ==> a@ == (ActionText::Speak { text: text@ }),
        a matches Action::Sleep { secs, interruptible } ==> a@ == (ActionText::Sleep {
            secs: secs as int,
            interruptible,
        }),
        a matches Action::StartReceiver { frequency_hz, path } ==> a@ == (
        ActionText::StartReceiver { frequency_hz, path: path@ }),
        a matches Action::Decode { recording, image, session_dir } ==> a@ == (ActionText::Decode {
            recording: recording@,
            image: image@,
            session_dir: session_dir@,
        }),
{
}

} // verus!
