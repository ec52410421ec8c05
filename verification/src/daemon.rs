//! The daemon that follows one pass after the other: what it does next, given what just happened.

use crate::binary64::fixed_text;
use crate::clock::{has_date, jst_of, jst_time, CivilTime};
use crate::config::SchedulerConfig;
use crate::orbit::{azimuth_to_direction, compass_name, compass_point, SatellitePass, SignalType};
use crate::scheduler::{
    alert_time, copy_pass, elements_due, pre_alert_time, recording_of, recording_path,
    session_dir_of, session_directory, tle_update_due,
};
use crate::text::{has_text, lemma_has_part, padded_decimal, padded_digits};
use vstd::prelude::*;

verus! {

/// What the daemon is busy with.
#[derive(Clone, Copy, Debug, PartialEq, Eq, Structural)]
pub enum Phase {
    /// Fetching the elements.
    Fetching,
    /// Predicting the passes.
    Planning,
    /// Saying that it has started.
    Greeting,
    /// Waiting for the time to announce the pass.
    AwaitingAlert,
    /// Announcing the pass.
    Alerting,
    /// Waiting for the pass to begin.
    AwaitingAos,
    /// Saying that the pass begins.
    AnnouncingAos,
    /// Starting the receiver.
    Starting,
    /// Recording until the pass ends.
    Recording,
    /// Stopping the receiver.
    Stopping,
    /// Stopping the receiver because the daemon is to end.
    StoppingForGood,
    /// Saying that the pass has ended.
    AnnouncingLos,
    /// Handing the recording to the decoder.
    Enqueueing,
    /// Resting before the next round.
    Resting,
    /// Saying goodbye.
    Leaving,
    /// Nothing more.
    Ended,
}

/// What the daemon has to do next.
#[derive(Debug)]
pub enum Action {
    FetchElements,
    Predict,
    Speak { text: String },
    /// Wait for a time; a request to end interrupts the wait.
    WaitUntil { time: i64, label: String },
    /// Rest for some seconds; a request to end interrupts the rest.
    Rest { secs: u64 },
    StartReceiver { frequency_hz: u64, signal: SignalType, path: String },
    StopReceiver,
    /// Hand the recording of the pass to the decoder.
    Enqueue { path: String, session_dir: String },
    Quit,
}

/// What the daemon has to do next, as plain values.
pub enum ActionText {
    FetchElements,
    Predict,
    Speak { text: Seq<char> },
    WaitUntil { time: int, label: Seq<char> },
    Rest { secs: int },
    StartReceiver { frequency_hz: u64, signal: SignalType, path: Seq<char> },
    StopReceiver,
    Enqueue { path: Seq<char>, session_dir: Seq<char> },
    Quit,
}

impl View for Action {
    type V = ActionText;

    open spec fn view(&self) -> ActionText {
        match self {
            Action::FetchElements => ActionText::FetchElements,
            Action::Predict => ActionText::Predict,
            Action::Speak { text } => ActionText::Speak { text: text@ },
            Action::WaitUntil { time, label } => ActionText::WaitUntil {
                time: *time as int,
                label: label@,
            },
            Action::Rest { secs } => ActionText::Rest { secs: *secs as int },
            Action::StartReceiver { frequency_hz, signal, path } => ActionText::StartReceiver {
                frequency_hz: *frequency_hz,
                signal: *signal,
                path: path@,
            },
            Action::StopReceiver => ActionText::StopReceiver,
            Action::Enqueue { path, session_dir } => ActionText::Enqueue {
                path: path@,
                session_dir: session_dir@,
            },
            Action::Quit => ActionText::Quit,
        }
    }
}

/// What happened.
#[derive(Debug)]
pub enum Event {
    /// The elements of so many satellites were fetched.
    Elements { count: usize },
    /// The elements could not be fetched.
    NoElements,
    /// The next pass, where there is one within a day.
    Planned { next: Option<SatellitePass> },
    /// The passes could not be predicted.
    NotPlanned,
    /// The receiver was started, or not.
    Started { running: bool },
    /// What was to be done is done.
    Done,
    /// The wait or the rest was interrupted: the daemon is to end.
    Interrupted,
}

/// The daemon.
#[derive(Debug)]
pub struct Daemon {
    pub phase: Phase,
    /// When this round began.
    pub round_start: i64,
    /// When the elements were last fetched.
    pub last_update: i64,
    /// Whether there are elements.
    pub known: bool,
    /// Whether it has said that it has started.
    pub greeted: bool,
    /// The pass that it follows.
    pub pass: Option<SatellitePass>,
}

/// The daemon follows a pass in this phase.
pub open spec fn has_pass(phase: Phase) -> bool {
    match phase {
        Phase::Greeting
        | Phase::AwaitingAlert
        | Phase::Alerting
        | Phase::AwaitingAos
        | Phase::AnnouncingAos
        | Phase::Starting
        | Phase::Recording
        | Phase::Stopping
        | Phase::AnnouncingLos
        | Phase::Enqueueing => true,
        _ => false,
    }
}

/// The receiver runs in this phase.
pub open spec fn receiver_on(phase: Phase) -> bool {
    phase == Phase::Recording || phase == Phase::Stopping || phase == Phase::StoppingForGood
}

/// What can happen in a phase.
pub open spec fn expects(phase: Phase, event: Event) -> bool {
    match phase {
        Phase::Fetching => event is Elements || event is NoElements,
        Phase::Planning => event is Planned || event is NotPlanned,
        Phase::Starting => event is Started,
        Phase::AwaitingAlert | Phase::AwaitingAos | Phase::Recording | Phase::Resting =>
            event is Done || event is Interrupted,
        Phase::Ended => false,
        _ => event is Done,
    }
}

/// The pass in an event begins at a time that has a date.
pub open spec fn dated_event(event: Event) -> bool {
    event matches Event::Planned { next: Some(p) } ==> has_date(p.aos as int)
}

impl Daemon {
    /// The daemon has the pass that its phase needs.
    pub open spec fn wf(self) -> bool {
        has_pass(self.phase) ==> self.pass is Some && has_date(self.pass->0.aos as int)
    }
}

/// What is said at the start.
pub open spec fn greeting(pass: SatellitePass) -> Seq<char> {
    let c = jst_of(pass.aos as int);
    "NOAA自律地上局デーモンを起動したのだ！次の通過予定は"@ + padded_digits(c.hour as nat, 2)
        + "時"@ + padded_digits(c.minute as nat, 2) + "分、"@ + pass.satellite_name@ + "なのだ！"@
}

/// What is said before a pass.
pub open spec fn alert(pass: SatellitePass) -> Seq<char> {
    "まもなく"@ + pass.satellite_name@ + "が通過するのだ！最大仰角は"@ + fixed_text(
        pass.max_elevation_deg,
        0,
    ) + "度、"@ + compass_name(compass_point(pass.peak_azimuth_deg)) + "の空なのだ！"@
}

/// What is said when a pass begins.
pub open spec fn aos_announcement(pass: SatellitePass) -> Seq<char> {
    pass.satellite_name@ + "が地平線から昇ってきたのだ！"@ + pass.signal_type.display()
        + "の受信録音を開始するのだ！"@
}

/// What is said when a pass has ended.
pub open spec fn los_announcement(pass: SatellitePass) -> Seq<char> {
    pass.satellite_name@ + "が地平線下に沈んだのだ！録音完了、画像デコードを開始するのだ！"@
}

/// What is said at the end.
pub open spec fn farewell() -> Seq<char> {
    "観測デーモンを終了するのだ！お疲れ様なのだ！"@
}

/// A new round begins: the elements are fetched where they are due, else the passes predicted.
pub open spec fn new_round(d: Daemon, config: SchedulerConfig, now: i64) -> (Daemon, ActionText) {
    if elements_due(
        now as int,
        d.last_update as int,
        config.tle_update_interval_hours as int,
        d.known,
    ) {
        (Daemon { phase: Phase::Fetching, round_start: now, ..d }, ActionText::FetchElements)
    } else {
        (Daemon { phase: Phase::Planning, round_start: now, ..d }, ActionText::Predict)
    }
}

/// The daemon rests.
pub open spec fn rest(d: Daemon, secs: int) -> (Daemon, ActionText) {
    (Daemon { phase: Phase::Resting, ..d }, ActionText::Rest { secs })
}

/// The daemon waits for the time to announce its pass, or announces it where that is past.
pub open spec fn toward_alert(d: Daemon, config: SchedulerConfig, now: i64) -> (
    Daemon,
    ActionText,
) {
    let pass = d.pass->0;
    let time = alert_time(pass.aos as int, config.pre_alert_minutes);
    if time > now {
        (
            Daemon { phase: Phase::AwaitingAlert, ..d },
            ActionText::WaitUntil { time, label: "事前通知"@ },
        )
    } else {
        (Daemon { phase: Phase::Alerting, ..d }, ActionText::Speak { text: alert(pass) })
    }
}

/// The daemon waits for its pass to begin, or says that it begins where it has.
pub open spec fn toward_aos(d: Daemon, now: i64) -> (Daemon, ActionText) {
    let pass = d.pass->0;
    if pass.aos > now {
        (
            Daemon { phase: Phase::AwaitingAos, ..d },
            ActionText::WaitUntil { time: pass.aos as int, label: "録音開始 (AOS)"@ },
        )
    } else {
        (
            Daemon { phase: Phase::AnnouncingAos, ..d },
            ActionText::Speak { text: aos_announcement(pass) },
        )
    }
}

/// The daemon says goodbye.
pub open spec fn goodbye(d: Daemon) -> (Daemon, ActionText) {
    (Daemon { phase: Phase::Leaving, ..d }, ActionText::Speak { text: farewell() })
}

/// What the daemon does next.
pub open spec fn next(
    d: Daemon,
    event: Event,
    now: i64,
    config: SchedulerConfig,
    output_dir: Seq<char>,
) -> (Daemon, ActionText) {
    let pass = d.pass->0;
    match d.phase {
        Phase::Fetching => match event {
            Event::Elements { count } => (
                Daemon {
                    phase: Phase::Planning,
                    known: count > 0,
                    last_update: d.round_start,
                    ..d
                },
                ActionText::Predict,
            ),
            _ => if d.known {
                (Daemon { phase: Phase::Planning, ..d }, ActionText::Predict)
            } else {
                rest(d, 60)
            },
        },
        Phase::Planning => match event {
            Event::Planned { next: Some(p) } => {
                let with = Daemon { pass: Some(p), greeted: true, ..d };
                if d.greeted {
                    toward_alert(with, config, now)
                } else {
                    (
                        Daemon { phase: Phase::Greeting, ..with },
                        ActionText::Speak { text: greeting(p) },
                    )
                }
            },
            Event::Planned { next: None } => rest(d, 3600),
            _ => rest(d, 60),
        },
        Phase::Greeting => toward_alert(d, config, now),
        Phase::AwaitingAlert => if event is Interrupted {
            goodbye(d)
        } else {
            (Daemon { phase: Phase::Alerting, ..d }, ActionText::Speak { text: alert(pass) })
        },
        Phase::Alerting => toward_aos(d, now),
        Phase::AwaitingAos => if event is Interrupted {
            goodbye(d)
        } else {
            (
                Daemon { phase: Phase::AnnouncingAos, ..d },
                ActionText::Speak { text: aos_announcement(pass) },
            )
        },
        Phase::AnnouncingAos => (
            Daemon { phase: Phase::Starting, ..d },
            ActionText::StartReceiver {
                frequency_hz: pass.frequency_hz,
                signal: pass.signal_type,
                path: recording_of(session_dir_of(output_dir, pass), pass.signal_type),
            },
        ),
        Phase::Starting => match event {
            Event::Started { running: true } => if pass.los > now {
                (
                    Daemon { phase: Phase::Recording, ..d },
                    ActionText::WaitUntil {
                        time: pass.los as int,
                        label: "衛星通過録音 (LOS)"@,
                    },
                )
            } else {
                (Daemon { phase: Phase::Stopping, ..d }, ActionText::StopReceiver)
            },
            _ => new_round(d, config, now),
        },
        Phase::Recording => if event is Interrupted {
            (Daemon { phase: Phase::StoppingForGood, ..d }, ActionText::StopReceiver)
        } else {
            (Daemon { phase: Phase::Stopping, ..d }, ActionText::StopReceiver)
        },
        Phase::Stopping => (
            Daemon { phase: Phase::AnnouncingLos, ..d },
            ActionText::Speak { text: los_announcement(pass) },
        ),
        Phase::StoppingForGood => goodbye(d),
        Phase::AnnouncingLos => (
            Daemon { phase: Phase::Enqueueing, ..d },
            ActionText::Enqueue {
                path: recording_of(session_dir_of(output_dir, pass), pass.signal_type),
                session_dir: session_dir_of(output_dir, pass),
            },
        ),
        Phase::Enqueueing => rest(d, 10),
        Phase::Resting => if event is Interrupted {
            goodbye(d)
        } else {
            new_round(d, config, now)
        },
        Phase::Leaving | Phase::Ended => (
            Daemon { phase: Phase::Ended, ..d },
            ActionText::Quit,
        ),
    }
}

/// What is said at the start.
pub fn startup_text(pass: &SatellitePass) -> (r: String)
    requires
        has_date(pass.aos as int),
    ensures
        r@ == greeting(*pass),
{
    let c: CivilTime = jst_time(pass.aos);
    let mut r: String =
        "NOAA自律地上局デーモンを起動したのだ！次の通過予定は".to_owned();
    r.append(padded_decimal(c.hour as u64, 2).as_str());
    r.append("時");
    r.append(padded_decimal(c.minute as u64, 2).as_str());
    r.append("分、");
    r.append(pass.satellite_name.as_str());
    r.append("なのだ！");
    r
}

/// What is said before a pass.
pub fn alert_text(pass: &SatellitePass) -> (r: String)
    ensures
        r@ == alert(*pass),
{
    let mut r: String = "まもなく".to_owned();
    r.append(pass.satellite_name.as_str());
    r.append("が通過するのだ！最大仰角は");
    r.append(pass.max_elevation_deg.fixed(0).as_str());
    r.append("度、");
    r.append(azimuth_to_direction(pass.peak_azimuth_deg));
    r.append("の空なのだ！");
    r
}

/// What is said when a pass begins.
pub fn aos_text(pass: &SatellitePass) -> (r: String)
    ensures
        r@ == aos_announcement(*pass),
{
    let mut r: String = pass.satellite_name.as_str().to_owned();
    r.append("が地平線から昇ってきたのだ！");
    r.append(pass.signal_type.name());
    r.append("の受信録音を開始するのだ！");
    r
}

/// What is said when a pass has ended.
pub fn los_text(pass: &SatellitePass) -> (r: String)
    ensures
        r@ == los_announcement(*pass),
{
    let mut r: String = pass.satellite_name.as_str().to_owned();
    r.append("が地平線下に沈んだのだ！録音完了、画像デコードを開始するのだ！");
    r
}

/// The pass that the daemon follows.
fn followed(pass: &Option<SatellitePass>) -> (r: SatellitePass)
    requires
        pass is Some,
    ensures
        r == pass->0,
{
    copy_pass(pass.as_ref().unwrap())
}

impl Daemon {
    /// A new round begins.
    fn begin_round(&mut self, config: &SchedulerConfig, now: i64) -> (r: Action)
        ensures
            (*final(self), r@) == new_round(*old(self), *config, now),
    {
        self.round_start = now;
        if tle_update_due(now, self.last_update, config.tle_update_interval_hours, self.known) {
            self.phase = Phase::Fetching;
            Action::FetchElements
        } else {
            self.phase = Phase::Planning;
            Action::Predict
        }
    }

    /// The daemon rests.
    fn take_rest(&mut self, secs: u64) -> (r: Action)
        ensures
            (*final(self), r@) == rest(*old(self), secs as int),
    {
        self.phase = Phase::Resting;
        Action::Rest { secs }
    }

    /// The daemon says goodbye.
    fn leave(&mut self) -> (r: Action)
        ensures
            (*final(self), r@) == goodbye(*old(self)),
    {
        self.phase = Phase::Leaving;
        Action::Speak { text: "観測デーモンを終了するのだ！お疲れ様なのだ！".to_owned() }
    }

    /// The daemon waits for the time to announce its pass, or announces it.
    fn go_toward_alert(&mut self, config: &SchedulerConfig, now: i64) -> (r: Action)
        requires
            old(self).pass is Some,
        ensures
            (*final(self), r@) == toward_alert(*old(self), *config, now),
    {
        let pass: SatellitePass = followed(&self.pass);
        let time: i64 = pre_alert_time(pass.aos, config.pre_alert_minutes);
        if time > now {
            self.phase = Phase::AwaitingAlert;
            Action::WaitUntil { time, label: "事前通知".to_owned() }
        } else {
            self.phase = Phase::Alerting;
            Action::Speak { text: alert_text(&pass) }
        }
    }

    /// The daemon waits for its pass to begin, or says that it begins.
    fn go_toward_aos(&mut self, now: i64) -> (r: Action)
        requires
            old(self).pass is Some,
        ensures
            (*final(self), r@) == toward_aos(*old(self), now),
    {
        let pass: SatellitePass = followed(&self.pass);
        if pass.aos > now {
            self.phase = Phase::AwaitingAos;
            Action::WaitUntil { time: pass.aos, label: "録音開始 (AOS)".to_owned() }
        } else {
            self.phase = Phase::AnnouncingAos;
            Action::Speak { text: aos_text(&pass) }
        }
    }

    /// A daemon that starts at `now`, and what it does first: it has no elements yet.
    pub fn start(now: i64) -> (r: (Self, Action))
        ensures
            r.0.wf(),
            r.0.phase == Phase::Fetching,
            r.0.round_start == now,
            r.0.last_update == now,
            !r.0.known,
            !r.0.greeted,
            r.0.pass is None,
            r.1@ == ActionText::FetchElements,
    {
        (
            Daemon {
                phase: Phase::Fetching,
                round_start: now,
                last_update: now,
                known: false,
                greeted: false,
                pass: None,
            },
            Action::FetchElements,
        )
    }

    /// What the daemon does next, after `event` at `now`.
    pub fn step(
        &mut self,
        event: Event,
        now: i64,
        config: &SchedulerConfig,
        output_dir: &str,
    ) -> (r: Action)
        requires
            old(self).wf(),
            expects(old(self).phase, event),
            dated_event(event),
        ensures
            final(self).wf(),
            (*final(self), r@) == next(*old(self), event, now, *config, output_dir@),
    {
        match self.phase {
            Phase::Fetching => match event {
                Event::Elements { count } => {
                    self.phase = Phase::Planning;
                    self.known = count > 0;
                    self.last_update = self.round_start;
                    Action::Predict
                },
                _ => if self.known {
                    self.phase = Phase::Planning;
                    Action::Predict
                } else {
                    self.take_rest(60)
                },
            },
            Phase::Planning => match event {
                Event::Planned { next: found } => match found {
                    Some(p) => {
                        let first: bool = !self.greeted;
                        self.greeted = true;
                        if first {
                            let text: String = startup_text(&p);
                            self.pass = Some(p);
                            self.phase = Phase::Greeting;
                            Action::Speak { text }
                        } else {
                            self.pass = Some(p);
                            self.go_toward_alert(config, now)
                        }
                    },
                    None => self.take_rest(3600),
                },
                _ => self.take_rest(60),
            },
            Phase::Greeting => self.go_toward_alert(config, now),
            Phase::AwaitingAlert => match event {
                Event::Interrupted => self.leave(),
                _ => {
                    let pass: SatellitePass = followed(&self.pass);
                    self.phase = Phase::Alerting;
                    Action::Speak { text: alert_text(&pass) }
                },
            },
            Phase::Alerting => self.go_toward_aos(now),
            Phase::AwaitingAos => match event {
                Event::Interrupted => self.leave(),
                _ => {
                    let pass: SatellitePass = followed(&self.pass);
                    self.phase = Phase::AnnouncingAos;
                    Action::Speak { text: aos_text(&pass) }
                },
            },
            Phase::AnnouncingAos => {
                let pass: SatellitePass = followed(&self.pass);
                self.phase = Phase::Starting;
                let dir: String = session_directory(output_dir, &pass);
                Action::StartReceiver {
                    frequency_hz: pass.frequency_hz,
                    signal: pass.signal_type,
                    path: recording_path(dir.as_str(), pass.signal_type),
                }
            },
            Phase::Starting => {
                let running: bool = match event {
                    Event::Started { running } => running,
                    _ => false,
                };
                if running {
                    let pass: SatellitePass = followed(&self.pass);
                    if pass.los > now {
                        self.phase = Phase::Recording;
                        Action::WaitUntil {
                            time: pass.los,
                            label: "衛星通過録音 (LOS)".to_owned(),
                        }
                    } else {
                        self.phase = Phase::Stopping;
                        Action::StopReceiver
                    }
                } else {
                    self.begin_round(config, now)
                }
            },
            Phase::Recording => match event {
                Event::Interrupted => {
                    self.phase = Phase::StoppingForGood;
                    Action::StopReceiver
                },
                _ => {
                    self.phase = Phase::Stopping;
                    Action::StopReceiver
                },
            },
            Phase::Stopping => {
                let pass: SatellitePass = followed(&self.pass);
                self.phase = Phase::AnnouncingLos;
                Action::Speak { text: los_text(&pass) }
            },
            Phase::StoppingForGood => self.leave(),
            Phase::AnnouncingLos => {
                let pass: SatellitePass = followed(&self.pass);
                self.phase = Phase::Enqueueing;
                let dir: String = session_directory(output_dir, &pass);
                Action::Enqueue {
                    path: recording_path(dir.as_str(), pass.signal_type),
                    session_dir: dir,
                }
            },
            Phase::Enqueueing => self.take_rest(10),
            Phase::Resting => match event {
                Event::Interrupted => self.leave(),
                _ => self.begin_round(config, now),
            },
            Phase::Leaving | Phase::Ended => {
                self.phase = Phase::Ended;
                Action::Quit
            },
        }
    }
}

/// A receiver that runs is stopped before anything else is done: no recording goes on while the
/// daemon plans, decodes, rests or ends.
pub proof fn law_receiver_is_always_stopped(
    d: Daemon,
    event: Event,
    now: i64,
    config: SchedulerConfig,
    output_dir: Seq<char>,
)
    requires
        d.wf(),
        expects(d.phase, event),
    ensures
        d.phase == Phase::Recording ==> next(d, event, now, config, output_dir).1
            == ActionText::StopReceiver,
        receiver_on(next(d, event, now, config, output_dir).0.phase) && !receiver_on(d.phase) ==>
            d.phase == Phase::Starting && event == (Event::Started { running: true }),
        d.phase == Phase::Starting && event == (Event::Started { running: true }) ==> receiver_on(
            next(d, event, now, config, output_dir).0.phase,
        ),
        next(d, event, now, config, output_dir).1 == ActionText::Quit ==> !receiver_on(d.phase),
{
}

/// A request to end is obeyed: whatever the daemon waits for, it says goodbye, and after that it
/// ends. A recording is stopped first.
pub proof fn law_interruption_ends_the_daemon(
    d: Daemon,
    event: Event,
    now: i64,
    later: i64,
    end: i64,
    config: SchedulerConfig,
    output_dir: Seq<char>,
)
    requires
        d.wf(),
        expects(d.phase, event),
        event is Interrupted,
    ensures
        ({
            let one = next(d, event, now, config, output_dir).0;
            let two = next(one, Event::Done, later, config, output_dir);
            let three = next(two.0, Event::Done, end, config, output_dir);
            if d.phase == Phase::Recording {
                one.phase == Phase::StoppingForGood && two.0.phase == Phase::Leaving && three.1
                    == ActionText::Quit
            } else {
                one.phase == Phase::Leaving && two.1 == ActionText::Quit
            }
        }),
{
}

/// A pass that is recorded is decoded: unless the daemon is told to end, stopping the receiver is
/// followed by handing over the very file that it was started with.
pub proof fn law_recordings_are_decoded(
    d: Daemon,
    t1: i64,
    t2: i64,
    t3: i64,
    t4: i64,
    t5: i64,
    config: SchedulerConfig,
    output_dir: Seq<char>,
)
    requires
        d.wf(),
        d.phase == Phase::AnnouncingAos,
        d.pass->0.los > t2,
    ensures
        ({
            let start = next(d, Event::Done, t1, config, output_dir);
            let record = next(start.0, Event::Started { running: true }, t2, config, output_dir);
            let stop = next(record.0, Event::Done, t3, config, output_dir);
            let say = next(stop.0, Event::Done, t4, config, output_dir);
            let hand = next(say.0, Event::Done, t5, config, output_dir);
            &&& record.0.phase == Phase::Recording
            &&& stop.1 == ActionText::StopReceiver
            &&& start.1 matches ActionText::StartReceiver { path: recorded, .. } && hand.1 == (
            ActionText::Enqueue {
                path: recorded,
                session_dir: session_dir_of(output_dir, d.pass->0),
            })
        }),
{
}

/// How many steps at most lie between a phase and the start of the receiver.
pub open spec fn steps_to_receiver(phase: Phase) -> nat {
    match phase {
        Phase::Greeting => 5,
        Phase::AwaitingAlert => 4,
        Phase::Alerting => 3,
        Phase::AwaitingAos => 2,
        Phase::AnnouncingAos => 1,
        _ => 0,
    }
}

/// Every pass that the daemon follows is recorded: unless the daemon is told to end, each step
/// brings it nearer to the start of the receiver, with the same pass; it does nothing on the way
/// but speak and wait for a time that lies ahead, and it starts the receiver with the frequency
/// and signal of that pass, once the pass has begun or was waited for.
pub proof fn law_every_followed_pass_is_recorded(
    d: Daemon,
    now: i64,
    config: SchedulerConfig,
    output_dir: Seq<char>,
)
    requires
        d.wf(),
        steps_to_receiver(d.phase) > 0,
    ensures
        ({
            let n = next(d, Event::Done, now, config, output_dir);
            &&& n.0.pass == d.pass
            &&& steps_to_receiver(n.0.phase) < steps_to_receiver(d.phase)
            &&& steps_to_receiver(n.0.phase) == 0 <==> d.phase == Phase::AnnouncingAos
            &&& d.phase == Phase::AnnouncingAos ==> n.0.phase == Phase::Starting && (n.1 matches
                ActionText::StartReceiver { frequency_hz, signal, .. } && frequency_hz
                == d.pass->0.frequency_hz && signal == d.pass->0.signal_type)
            &&& d.phase != Phase::AnnouncingAos ==> n.1 is Speak || n.1 is WaitUntil
            &&& n.1 matches ActionText::WaitUntil { time, .. } ==> time > now
            &&& n.0.phase == Phase::AwaitingAos ==> (n.1 matches ActionText::WaitUntil {
                time,
                ..
            } && time == d.pass->0.aos)
            &&& n.0.phase == Phase::AnnouncingAos ==> d.phase == Phase::AwaitingAos
                || d.pass->0.aos <= now
            &&& d.phase == Phase::Alerting ==> (n.0.phase == Phase::AwaitingAos <==> d.pass->0.aos
                > now)
        }),
{
}

/// A pass that has begun is recorded without delay, however much of it is over: behind the alert
/// the daemon says that the pass begins, and then starts the receiver.
pub proof fn law_pass_under_way_is_recorded(
    d: Daemon,
    now: i64,
    later: i64,
    config: SchedulerConfig,
    output_dir: Seq<char>,
)
    requires
        d.wf(),
        d.phase == Phase::AwaitingAos || (d.phase == Phase::Alerting && d.pass->0.aos <= now),
    ensures
        ({
            let say = next(d, Event::Done, now, config, output_dir);
            let start = next(say.0, Event::Done, later, config, output_dir);
            &&& say.0.phase == Phase::AnnouncingAos
            &&& say.1 == (ActionText::Speak { text: aos_announcement(d.pass->0) })
            &&& start.0.phase == Phase::Starting
            &&& start.0.pass == d.pass
            &&& start.1 matches ActionText::StartReceiver { frequency_hz, signal, .. }
                && frequency_hz == d.pass->0.frequency_hz && signal == d.pass->0.signal_type
        }),
{
}

/// The daemon follows the pass that was found for it, and no other, whether or not it has greeted
/// before; it greets once.
pub proof fn law_planned_pass_is_followed(
    d: Daemon,
    p: SatellitePass,
    now: i64,
    config: SchedulerConfig,
    output_dir: Seq<char>,
)
    requires
        d.wf(),
        d.phase == Phase::Planning,
    ensures
        ({
            let n = next(d, Event::Planned { next: Some(p) }, now, config, output_dir);
            &&& n.0.pass == Some(p)
            &&& n.0.greeted
            &&& steps_to_receiver(n.0.phase) >= 3
            &&& n.0.phase == Phase::Greeting <==> !d.greeted
            &&& n.1 == (ActionText::Speak { text: greeting(p) }) || d.greeted
        }),
{
}

/// The alert comes at its time: the daemon waits for the time before the pass at which it is due,
/// and speaks at once where that is past.
pub proof fn law_alert_comes_at_its_time(
    d: Daemon,
    now: i64,
    config: SchedulerConfig,
    output_dir: Seq<char>,
)
    requires
        d.wf(),
        d.phase == Phase::Greeting,
    ensures
        ({
            let time = alert_time(d.pass->0.aos as int, config.pre_alert_minutes);
            let n = next(d, Event::Done, now, config, output_dir);
            &&& time > now ==> n.0.phase == Phase::AwaitingAlert && (n.1 matches
                ActionText::WaitUntil { time: until, .. } && until == time)
            &&& time <= now ==> n.0.phase == Phase::Alerting && n.1 == (ActionText::Speak {
                text: alert(d.pass->0),
            })
        }),
        ({
            let before = Daemon { phase: Phase::Planning, greeted: true, ..d };
            next(before, Event::Planned { next: d.pass }, now, config, output_dir).1 == next(
                d,
                Event::Done,
                now,
                config,
                output_dir,
            ).1
        }),
{
}

/// A recording lasts until the pass ends: the daemon waits for that time while it lies ahead, and
/// stops the receiver at once where it is past. Either way the recording is handed to the decoder,
/// and after a short rest the next round begins.
pub proof fn law_recording_lasts_until_the_pass_ends(
    d: Daemon,
    now: i64,
    t1: i64,
    t2: i64,
    t3: i64,
    t4: i64,
    config: SchedulerConfig,
    output_dir: Seq<char>,
)
    requires
        d.wf(),
        d.phase == Phase::Starting,
    ensures
        ({
            let record = next(d, Event::Started { running: true }, now, config, output_dir);
            let stop = if d.pass->0.los > now {
                next(record.0, Event::Done, t1, config, output_dir)
            } else {
                record
            };
            let say = next(stop.0, Event::Done, t2, config, output_dir);
            let hand = next(say.0, Event::Done, t3, config, output_dir);
            let idle = next(hand.0, Event::Done, t4, config, output_dir);
            &&& d.pass->0.los > now ==> (record.1 matches ActionText::WaitUntil { time, .. } && time
                == d.pass->0.los)
            &&& stop.1 == ActionText::StopReceiver
            &&& hand.1 is Enqueue
            &&& idle.1 == (ActionText::Rest { secs: 10 })
            &&& idle.0.phase == Phase::Resting
        }),
{
}

/// What goes wrong ends nothing: a receiver that does not start, passes that cannot be predicted,
/// a day without a pass, and elements that cannot be fetched all lead to another round, at once or
/// after a rest, of an hour where there is no pass and of a minute where something failed.
pub proof fn law_failures_lead_to_another_round(
    d: Daemon,
    event: Event,
    now: i64,
    later: i64,
    config: SchedulerConfig,
    output_dir: Seq<char>,
)
    requires
        d.wf(),
        expects(d.phase, event),
        event == (Event::Started { running: false }) || event is NotPlanned || event
            == (Event::Planned { next: None }) || (event is NoElements && !d.known),
    ensures
        ({
            let n = next(d, event, now, config, output_dir);
            let m = next(n.0, Event::Done, later, config, output_dir);
            &&& event is Started ==> n.1 is FetchElements || n.1 is Predict
            &&& event is Planned ==> n.1 == (ActionText::Rest { secs: 3600 })
            &&& event is NotPlanned || event is NoElements ==> n.1 == (ActionText::Rest {
                secs: 60,
            })
            &&& !(event is Started) ==> m.1 is FetchElements || m.1 is Predict
            &&& event is NoElements ==> m.1 is FetchElements
            &&& n.0.known == d.known
            &&& n.0.last_update == d.last_update
        }),
{
}

/// The elements are fetched when there are none or when they have come to their age in hours, and
/// only then; old elements serve on where new ones cannot be had, and their age goes on.
pub proof fn law_elements_are_kept_fresh(
    d: Daemon,
    count: usize,
    now: i64,
    config: SchedulerConfig,
    output_dir: Seq<char>,
)
    requires
        d.wf(),
    ensures
        d.phase == Phase::Resting ==> ({
            let n = next(d, Event::Done, now, config, output_dir);
            &&& n.1 is FetchElements <==> (!d.known || now - d.last_update
                >= config.tle_update_interval_hours * 3_600_000)
            &&& n.1 is Predict <==> !(n.1 is FetchElements)
            &&& n.0.round_start == now
            &&& n.0.last_update == d.last_update
        }),
        d.phase == Phase::Fetching ==> ({
            let n = next(d, Event::Elements { count }, now, config, output_dir);
            n.1 is Predict && n.0.last_update == d.round_start && n.0.known == (count > 0)
        }),
        d.phase == Phase::Fetching && d.known ==> ({
            let n = next(d, Event::NoElements, now, config, output_dir);
            n.1 is Predict && n.0.known && n.0.last_update == d.last_update
        }),
{
}

/// What is said of a pass names its satellite: the greeting with the time of day at which it
/// begins, the alert with its height and direction, the announcement of its beginning with its
/// signal.
pub proof fn law_what_is_said_names_the_satellite(pass: SatellitePass)
    ensures
        has_text(greeting(pass), pass.satellite_name@),
        has_text(
            greeting(pass),
            padded_digits(jst_of(pass.aos as int).hour as nat, 2) + "時"@ + padded_digits(
                jst_of(pass.aos as int).minute as nat,
                2,
            ) + "分"@,
        ),
        has_text(alert(pass), pass.satellite_name@),
        has_text(alert(pass), fixed_text(pass.max_elevation_deg, 0) + "度"@),
        has_text(alert(pass), compass_name(compass_point(pass.peak_azimuth_deg))),
        has_text(aos_announcement(pass), pass.satellite_name@),
        has_text(aos_announcement(pass), pass.signal_type.display()),
        has_text(los_announcement(pass), pass.satellite_name@),
{
    reveal_strlit("分");
    reveal_strlit("分、");
    reveal_strlit("度");
    reveal_strlit("度、");
    let name = pass.satellite_name@;
    let c = jst_of(pass.aos as int);
    let head = "NOAA自律地上局デーモンを起動したのだ！次の通過予定は"@;
    let hour = padded_digits(c.hour as nat, 2);
    let minute = padded_digits(c.minute as nat, 2);
    let time = hour + "時"@ + minute + "分"@;
    let comma = "分、"@.skip(1);
    assert("分、"@ =~= "分"@ + comma);
    let end = "なのだ！"@;
    assert(greeting(pass) =~= (head + time) + comma + name + end);
    lemma_has_part(head + time + comma, name, end);
    assert(greeting(pass) =~= head + time + (comma + name + end));
    lemma_has_part(head, time, comma + name + end);
    let el = fixed_text(pass.max_elevation_deg, 0);
    let soon = "まもなく"@;
    let passing = "が通過するのだ！最大仰角は"@;
    let dir = compass_name(compass_point(pass.peak_azimuth_deg));
    let sky = "の空なのだ！"@;
    assert(alert(pass) =~= soon + name + (passing + el + "度、"@ + dir + sky));
    lemma_has_part(soon, name, passing + el + "度、"@ + dir + sky);
    let stop = "度、"@.skip(1);
    assert("度、"@ =~= "度"@ + stop);
    assert(alert(pass) =~= (soon + name + passing) + (el + "度"@) + (stop + dir + sky));
    lemma_has_part(soon + name + passing, el + "度"@, stop + dir + sky);
    lemma_has_part(soon + name + passing + el + "度、"@, dir, sky);
    let risen = "が地平線から昇ってきたのだ！"@;
    let shown = pass.signal_type.display();
    let recording = "の受信録音を開始するのだ！"@;
    assert(aos_announcement(pass) =~= Seq::<char>::empty() + name + (risen + shown + recording));
    lemma_has_part(Seq::empty(), name, risen + shown + recording);
    lemma_has_part(name + risen, shown, recording);
    let set = "が地平線下に沈んだのだ！録音完了、画像デコードを開始するのだ！"@;
    assert(los_announcement(pass) =~= Seq::<char>::empty() + name + set);
    lemma_has_part(Seq::empty(), name, set);
}

/// The plain values of an action are those that it is carried out with.
pub proof fn law_actions_are_what_they_say(a: Action)
    ensures
        a is FetchElements <==> a@ is FetchElements,
        a is Predict <==> a@ is Predict,
        a is StopReceiver <==> a@ is StopReceiver,
        a is Quit <==> a@ is Quit,
        a matches Action::Speak { text } ==> a@ == (ActionText::Speak { text: text@ }),
        a matches Action::WaitUntil { time, label } ==> a@ == (ActionText::WaitUntil {
            time: time as int,
            label: label@,
        }),
        a matches Action::Rest { secs } ==> a@ == (ActionText::Rest { secs: secs as int }),
        a matches Action::StartReceiver { frequency_hz, signal, path } ==> a@ == (
        ActionText::StartReceiver { frequency_hz, signal, path: path@ }),
        a matches Action::Enqueue { path, session_dir } ==> a@ == (ActionText::Enqueue {
            path: path@,
            session_dir: session_dir@,
        }),
{
}

} // verus!
