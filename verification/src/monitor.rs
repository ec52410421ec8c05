//! The aircraft monitor: what it does next, given what just happened. It rests, looks for the
//! receiver's report, goes through the aircraft in it, and announces those that come near.

use crate::adsb::{
    approach_alert, build_approach_alert, build_voice_text, candidate_urls, check_approach, closest,
    common_paths, elapsed, fetch_aircraft_photo, fetch_flight_route, is_closest, is_due, is_near,
    law_candidates_are_distinct, law_seen_is_not_announced, number_or, photo_in, plan_photo,
    plan_route, poll_interval_secs, remember, reply_document, round_of, route_in, tracks_fresh,
    tracks_notified, tracks_seen, url_with_path, voice_text, AdsbCache, AircraftPhotoMeta,
    AircraftRecord, AlertText, EndpointSearch, FlightRoute, MonitorTimers, PhotoLookup, PhotoText,
    RouteLookup, RouteText, TrackState,
};
use crate::binary64::{fixed_text, of_integer, Binary64};
use crate::config::AdsbConfig;
use crate::discord::AircraftAlert;
use crate::json::json_document;
use crate::text::{
    concat3, decimal, digits, has_text, lemma_ends_with, lemma_filter_push, lemma_has_across,
    lemma_has_more, lemma_has_part, opt_text, texts,
};
use vstd::prelude::*;

verus! {

/// An aircraft in a report, with its distance from the station where it reports its position.
#[derive(Debug)]
pub struct Sighting {
    pub record: AircraftRecord,
    pub distance_km: Option<Binary64>,
}

/// A reply to a question for a route or a photo.
#[derive(Debug)]
pub struct Reply {
    pub success: bool,
    /// The text, where it could be read.
    pub body: Option<String>,
}

/// What the monitor is busy with.
#[derive(Clone, Copy, Debug, PartialEq, Eq, Structural)]
pub enum MonitorPhase {
    /// Resting before the next round.
    Resting,
    /// Asking an address of the round for the report.
    Fetching { tried: usize },
    /// Warning that no address serves the report.
    Warning,
    /// Showing how many aircraft are in reach.
    Showing,
    /// Finding out about an aircraft that is near.
    Looking { at: usize },
    /// Announcing an aircraft.
    Announcing { at: usize },
    /// Nothing more.
    Ended,
}

/// What the monitor has to do next.
#[derive(Debug)]
pub enum MonitorAction {
    /// Rest for some seconds; a request to end interrupts the rest.
    Sleep { secs: u64 },
    /// Ask an address for the report.
    Fetch { url: String },
    Warn { line: String },
    Show { line: String },
    /// Ask for what is not known of an aircraft.
    LookUp { route_url: Option<String>, photo_url: Option<String> },
    /// Announce an aircraft, on Discord and in words as far as that is wanted.
    Announce { alert: AircraftAlert, discord: bool, speech: Option<String> },
    Quit,
}

/// What the monitor has to do next, as plain values.
pub enum MonitorActionText {
    Sleep { secs: u64 },
    Fetch { url: Seq<char> },
    Warn { line: Seq<char> },
    Show { line: Seq<char> },
    LookUp { route_url: Option<Seq<char>>, photo_url: Option<Seq<char>> },
    Announce { alert: AlertText, discord: bool, speech: Option<Seq<char>> },
    Quit,
}

impl View for MonitorAction {
    type V = MonitorActionText;

    open spec fn view(&self) -> MonitorActionText {
        match self {
            MonitorAction::Sleep { secs } => MonitorActionText::Sleep { secs: *secs },
            MonitorAction::Fetch { url } => MonitorActionText::Fetch { url: url@ },
            MonitorAction::Warn { line } => MonitorActionText::Warn { line: line@ },
            MonitorAction::Show { line } => MonitorActionText::Show { line: line@ },
            MonitorAction::LookUp { route_url, photo_url } => MonitorActionText::LookUp {
                route_url: opt_text(*route_url),
                photo_url: opt_text(*photo_url),
            },
            MonitorAction::Announce { alert, discord, speech } => MonitorActionText::Announce {
                alert: alert@,
                discord: *discord,
                speech: opt_text(*speech),
            },
            MonitorAction::Quit => MonitorActionText::Quit,
        }
    }
}

/// What happened.
#[derive(Debug)]
pub enum MonitorEvent {
    /// What was to be done is done.
    Done,
    /// The rest was interrupted: the monitor is to end.
    Interrupted,
    /// The address served the report.
    Report { sightings: Vec<Sighting> },
    /// The address did not serve the report, for the given reason.
    NoReport { reason: String },
    /// The replies to the questions that were asked.
    Replies { route: Option<Reply>, photo: Option<Reply> },
}

/// The monitor.
#[derive(Debug)]
pub struct Monitor {
    pub phase: MonitorPhase,
    pub search: EndpointSearch,
    pub cache: AdsbCache,
    pub timers: MonitorTimers,
    /// The aircraft in the last report.
    pub sightings: Vec<Sighting>,
}

/// The monitor, as plain values.
pub struct MonitorState {
    pub phase: MonitorPhase,
    pub candidates: Seq<Seq<char>>,
    pub active: Option<Seq<char>>,
    pub cooldown: int,
    pub tracks: Map<Seq<char>, TrackState>,
    pub routes: Map<Seq<char>, Option<RouteText>>,
    pub photos: Map<Seq<char>, Option<PhotoText>>,
    pub timers: MonitorTimers,
    pub sightings: Seq<Sighting>,
}

impl MonitorState {
    /// The addresses of the round, in order.
    pub open spec fn round(self) -> Seq<Seq<char>> {
        round_of(self.candidates, self.active)
    }
}

/// What can happen in a phase.
pub open spec fn monitor_expects(phase: MonitorPhase, event: MonitorEvent) -> bool {
    match phase {
        MonitorPhase::Resting => event is Done || event is Interrupted,
        MonitorPhase::Fetching { .. } => event is Report || event is NoReport,
        MonitorPhase::Looking { .. } => event is Replies,
        MonitorPhase::Ended => false,
        _ => event is Done,
    }
}

impl Monitor {
    /// The monitor, as plain values.
    pub open spec fn state(self) -> MonitorState {
        MonitorState {
            phase: self.phase,
            candidates: texts(self.search.candidates@),
            active: opt_text(self.search.active),
            cooldown: self.cache.cooldown(),
            tracks: self.cache.tracks(),
            routes: self.cache.known_routes(),
            photos: self.cache.known_photos(),
            timers: self.timers,
            sightings: self.sightings@,
        }
    }

    /// There is an address to try, and the phase speaks of an address of the round or of an
    /// aircraft in the report.
    pub open spec fn wf(self) -> bool {
        &&& self.cache.wf()
        &&& self.search.candidates@.len() > 0
        &&& match self.phase {
            MonitorPhase::Fetching { tried } => tried < self.state().round().len(),
            MonitorPhase::Looking { at } => at < self.sightings@.len()
                && self.sightings@[at as int].distance_km is Some
                && self.sightings@[at as int].record.altitude() is Some,
            MonitorPhase::Announcing { at } => at < self.sightings@.len(),
            _ => true,
        }
    }
}

// ---- the report ----

/// The distances of the aircraft in a report.
pub open spec fn distances_in(sightings: Seq<Sighting>) -> Seq<Option<Binary64>> {
    sightings.map_values(|s: Sighting| s.distance_km)
}

/// How many aircraft report their position.
pub open spec fn placed_count(distances: Seq<Option<Binary64>>) -> nat {
    distances.filter(|d: Option<Binary64>| d is Some).len()
}

/// How many aircraft are in reach, and which of them is nearest.
pub open spec fn radar_text(sightings: Seq<Sighting>) -> Seq<char> {
    let distances = distances_in(sightings);
    let head = "📡 ADS-B レーダー状況: 捕捉 "@ + digits(sightings.len()) + " 機 (位置確定 "@;
    if exists|i: int| is_closest(distances, i) {
        let i = choose|i: int| is_closest(distances, i);
        head + digits(placed_count(distances)) + " 機) | 最接近: "@
            + sightings[i].record.shown_name() + " ("@ + fixed_text(
            distances[i]->0,
            1,
        ) + "km, 高度 "@ + fixed_text(
            number_or(sightings[i].record.altitude(), of_integer(0)),
            0,
        ) + "m)"@
    } else {
        head + "0 機) | 電波待機中..."@
    }
}

/// What is said where no address serves the report.
pub open spec fn warning_text(reason: Seq<char>) -> Seq<char> {
    "⚠️ ADS-B エンドポイントに接続できません (最新試行: "@ + reason
        + ")。dump1090 / readsb / Ultrafeeder コンテナが起動しているか確認してください"@
}

/// The distances of the aircraft in a report.
fn list_distances(sightings: &Vec<Sighting>) -> (r: Vec<Option<Binary64>>)
    ensures
        r@ == distances_in(sightings@),
{
    let mut r: Vec<Option<Binary64>> = Vec::new();
    let mut i: usize = 0;
    while i < sightings.len()
        invariant
            i <= sightings@.len(),
            r@ == distances_in(sightings@).take(i as int),
        decreases sightings@.len() - i,
    {
        r.push(sightings[i].distance_km);
        i = i + 1;
        assert(r@ =~= distances_in(sightings@).take(i as int));
    }
    assert(distances_in(sightings@).take(i as int) =~= distances_in(sightings@));
    r
}

/// How many aircraft report their position.
fn count_placed(distances: &Vec<Option<Binary64>>) -> (r: usize)
    ensures
        r == placed_count(distances@),
{
    let ghost keep = |d: Option<Binary64>| d is Some;
    let mut n: usize = 0;
    let mut i: usize = 0;
    proof {
        reveal(Seq::filter);
        assert(distances@.take(0).filter(keep).len() == 0);
    }
    while i < distances.len()
        invariant
            keep == (|d: Option<Binary64>| d is Some),
            n <= i <= distances@.len(),
            n == distances@.take(i as int).filter(keep).len(),
        decreases distances@.len() - i,
    {
        proof {
            lemma_filter_push(distances@.take(i as int), distances@[i as int], keep);
            assert(distances@.take(i + 1) =~= distances@.take(i as int).push(distances@[i as int]));
        }
        if distances[i].is_some() {
            n = n + 1;
        }
        i = i + 1;
    }
    assert(distances@.take(i as int) =~= distances@);
    n
}

/// How many aircraft are in reach, and which of them is nearest.
pub fn describe_radar(sightings: &Vec<Sighting>) -> (r: String)
    ensures
        r@ == radar_text(sightings@),
{
    let distances: Vec<Option<Binary64>> = list_distances(sightings);
    let mut r: String = "📡 ADS-B レーダー状況: 捕捉 ".to_owned();
    r.append(decimal(sightings.len() as u64).as_str());
    r.append(" 機 (位置確定 ");
    match closest(&distances) {
        Some(i) => {
            proof {
                let c = choose|c: int| is_closest(distances@, c);
                assert(is_closest(distances@, i as int));
                assert(is_closest(distances@, c));
                assert(distances@[i as int] is Some && distances@[c] is Some);
                assert(i == c);
            }
            let s: &Sighting = &sightings[i];
            let near: Binary64 = match distances[i] {
                Some(d) => d,
                None => Binary64::integer(0),
            };
            let height: Binary64 = match s.record.altitude_m() {
                Some(a) => a,
                None => Binary64::integer(0),
            };
            r.append(decimal(count_placed(&distances) as u64).as_str());
            r.append(" 機) | 最接近: ");
            r.append(s.record.display_callsign().as_str());
            r.append(" (");
            r.append(near.fixed(1).as_str());
            r.append("km, 高度 ");
            r.append(height.fixed(0).as_str());
            r.append("m)");
        },
        None => {
            r.append("0 機) | 電波待機中...");
        },
    }
    r
}

// ---- the aircraft in the report ----

/// The aircraft reports its position and is near.
pub open spec fn comes_near(s: Sighting, config: AdsbConfig) -> bool {
    s.distance_km matches Some(d) && is_near(s.record, d, config)
}

/// Goes through the aircraft from number `from` on, up to the first that is near and due. The
/// result is what is then known of the aircraft, and which one it is.
pub open spec fn scan(
    tracks: Map<Seq<char>, TrackState>,
    cooldown: int,
    sightings: Seq<Sighting>,
    from: int,
    config: AdsbConfig,
    now: u64,
) -> (Map<Seq<char>, TrackState>, Option<int>)
    decreases sightings.len() - from,
{
    if from < 0 || from >= sightings.len() {
        (tracks, None)
    } else {
        let s = sightings[from];
        let hex = s.record.hex@;
        if !comes_near(s, config) {
            scan(tracks, cooldown, sightings, from + 1, config, now)
        } else if is_due(tracks, cooldown, hex, now) {
            (tracks_notified(tracks, hex, s.distance_km->0, now), Some(from))
        } else {
            scan(
                tracks_seen(tracks, hex, s.distance_km->0, now),
                cooldown,
                sightings,
                from + 1,
                config,
                now,
            )
        }
    }
}

// ---- the steps ----

/// The monitor rests.
pub open spec fn to_rest(m: MonitorState, config: AdsbConfig) -> (MonitorState, MonitorActionText) {
    (
        MonitorState { phase: MonitorPhase::Resting, ..m },
        MonitorActionText::Sleep {
            secs: if config.poll_interval_secs < 1 {
                1
            } else {
                config.poll_interval_secs
            },
        },
    )
}

/// The monitor begins a round: it forgets lost aircraft where that is due, and asks the first
/// address.
pub open spec fn to_round(m: MonitorState, now: u64) -> (MonitorState, MonitorActionText) {
    let clean = elapsed(now, m.timers.cleanup) > 600_000;
    (
        MonitorState {
            phase: MonitorPhase::Fetching { tried: 0 },
            tracks: if clean {
                tracks_fresh(m.tracks, now)
            } else {
                m.tracks
            },
            timers: if clean {
                MonitorTimers { cleanup: now, ..m.timers }
            } else {
                m.timers
            },
            ..m
        },
        MonitorActionText::Fetch { url: m.round()[0] },
    )
}

/// The route of the flight is to be asked for.
pub open spec fn asks_route(m: MonitorState, config: AdsbConfig, callsign: Seq<char>) -> bool {
    config.fetch_routes && !m.routes.dom().contains(callsign)
}

/// The photo of the aircraft is to be asked for.
pub open spec fn asks_photo(m: MonitorState, config: AdsbConfig, hex: Seq<char>) -> bool {
    config.fetch_photos && !m.photos.dom().contains(hex)
}

/// The monitor goes on with aircraft number `from`: it finds out about the next one to announce,
/// or rests where there is none.
pub open spec fn to_scan(m: MonitorState, from: int, config: AdsbConfig, now: u64) -> (
    MonitorState,
    MonitorActionText,
) {
    let (tracks, found) = scan(m.tracks, m.cooldown, m.sightings, from, config, now);
    match found {
        Some(at) => {
            let record = m.sightings[at].record;
            (
                MonitorState { phase: MonitorPhase::Looking { at: at as usize }, tracks, ..m },
                MonitorActionText::LookUp {
                    route_url: if asks_route(m, config, record.shown_name()) {
                        Some("https://hexdb.io/api/v1/route/icao/"@ + record.shown_name())
                    } else {
                        None
                    },
                    photo_url: if asks_photo(m, config, record.hex@) {
                        Some("https://api.planespotters.net/pub/photos/hex/"@ + record.hex@)
                    } else {
                        None
                    },
                },
            )
        },
        None => to_rest(MonitorState { tracks, ..m }, config),
    }
}

/// The route in a reply.
pub open spec fn reply_route(callsign: Seq<char>, reply: Option<Reply>) -> Option<RouteText> {
    match reply {
        Some(r) => match reply_document(r.success, opt_text(r.body)) {
            Some(doc) => route_in(callsign, doc),
            None => None,
        },
        None => None,
    }
}

/// The photo in a reply.
pub open spec fn reply_photo(reply: Option<Reply>) -> Option<PhotoText> {
    match reply {
        Some(r) => match reply_document(r.success, opt_text(r.body)) {
            Some(doc) => photo_in(doc),
            None => None,
        },
        None => None,
    }
}

/// The route of a flight: none where routes are not wanted, what is remembered, or the reply.
pub open spec fn route_found(
    m: MonitorState,
    config: AdsbConfig,
    callsign: Seq<char>,
    reply: Option<Reply>,
) -> Option<RouteText> {
    if asks_route(m, config, callsign) {
        reply_route(callsign, reply)
    } else if config.fetch_routes {
        m.routes[callsign]
    } else {
        None
    }
}

/// The photo of an aircraft: none where photos are not wanted, what is remembered, or the reply.
pub open spec fn photo_found(
    m: MonitorState,
    config: AdsbConfig,
    hex: Seq<char>,
    reply: Option<Reply>,
) -> Option<PhotoText> {
    if asks_photo(m, config, hex) {
        reply_photo(reply)
    } else if config.fetch_photos {
        m.photos[hex]
    } else {
        None
    }
}

/// The monitor remembers what was found out about aircraft number `at`, and announces it.
pub open spec fn to_announce(
    m: MonitorState,
    at: usize,
    config: AdsbConfig,
    route: Option<RouteText>,
    photo: Option<PhotoText>,
) -> (MonitorState, MonitorActionText) {
    let s = m.sightings[at as int];
    let alert = approach_alert(
        s.record,
        s.record.altitude()->0,
        s.distance_km->0,
        route,
        photo,
        config.tar1090_url@,
    );
    (
        MonitorState {
            phase: MonitorPhase::Announcing { at },
            routes: if config.fetch_routes {
                m.routes.insert(s.record.shown_name(), route)
            } else {
                m.routes
            },
            photos: if config.fetch_photos {
                m.photos.insert(s.record.hex@, photo)
            } else {
                m.photos
            },
            ..m
        },
        MonitorActionText::Announce {
            alert,
            discord: config.discord_alert,
            speech: if config.voice_alert {
                Some(voice_text(alert))
            } else {
                None
            },
        },
    )
}

/// The address served the report: it is asked first from now on. From time to time the monitor
/// shows how many aircraft are in reach; then it goes through them.
pub open spec fn to_report(
    m: MonitorState,
    tried: int,
    sightings: Seq<Sighting>,
    config: AdsbConfig,
    now: u64,
) -> (MonitorState, MonitorActionText) {
    let with = MonitorState { active: Some(m.round()[tried]), sightings, ..m };
    if elapsed(now, m.timers.heartbeat) >= 30_000 {
        (
            MonitorState {
                phase: MonitorPhase::Showing,
                timers: MonitorTimers { heartbeat: now, ..m.timers },
                ..with
            },
            MonitorActionText::Show { line: radar_text(sightings) },
        )
    } else {
        to_scan(with, 0, config, now)
    }
}

/// The address did not serve the report: the next one is asked. After the last the monitor warns,
/// though not too often, and rests.
pub open spec fn to_next_address(
    m: MonitorState,
    tried: usize,
    reason: Seq<char>,
    config: AdsbConfig,
    now: u64,
) -> (MonitorState, MonitorActionText) {
    if tried + 1 < m.round().len() {
        (
            MonitorState { phase: MonitorPhase::Fetching { tried: (tried + 1) as usize }, ..m },
            MonitorActionText::Fetch { url: m.round()[tried + 1] },
        )
    } else {
        let without = MonitorState { active: None, ..m };
        if m.timers.warning matches Some(then) ==> elapsed(now, then) >= 30_000 {
            (
                MonitorState {
                    phase: MonitorPhase::Warning,
                    timers: MonitorTimers { warning: Some(now), ..m.timers },
                    ..without
                },
                MonitorActionText::Warn { line: warning_text(reason) },
            )
        } else {
            to_rest(without, config)
        }
    }
}

/// What the monitor does next.
pub open spec fn monitor_next(
    m: MonitorState,
    event: MonitorEvent,
    now: u64,
    config: AdsbConfig,
) -> (MonitorState, MonitorActionText) {
    match (m.phase, event) {
        (MonitorPhase::Resting, MonitorEvent::Done) => to_round(m, now),
        (MonitorPhase::Fetching { tried }, MonitorEvent::Report { sightings }) => to_report(
            m,
            tried as int,
            sightings@,
            config,
            now,
        ),
        (MonitorPhase::Fetching { tried }, MonitorEvent::NoReport { reason }) => to_next_address(
            m,
            tried,
            reason@,
            config,
            now,
        ),
        (MonitorPhase::Warning, MonitorEvent::Done) => to_rest(m, config),
        (MonitorPhase::Showing, MonitorEvent::Done) => to_scan(m, 0, config, now),
        (MonitorPhase::Looking { at }, MonitorEvent::Replies { route, photo }) => {
            let record = m.sightings[at as int].record;
            to_announce(
                m,
                at,
                config,
                route_found(m, config, record.shown_name(), route),
                photo_found(m, config, record.hex@, photo),
            )
        },
        (MonitorPhase::Announcing { at }, MonitorEvent::Done) => to_scan(m, at + 1, config, now),
        _ => (MonitorState { phase: MonitorPhase::Ended, ..m }, MonitorActionText::Quit),
    }
}

impl Monitor {
    /// The monitor rests.
    fn rest(&mut self, config: &AdsbConfig) -> (r: MonitorAction)
        requires
            old(self).cache.wf(),
            old(self).search.candidates@.len() > 0,
        ensures
            final(self).wf(),
            (final(self).state(), r@) == to_rest(old(self).state(), *config),
    {
        self.phase = MonitorPhase::Resting;
        MonitorAction::Sleep { secs: poll_interval_secs(config) }
    }

    /// The monitor begins a round.
    fn begin_round(&mut self, now: u64) -> (r: MonitorAction)
        requires
            old(self).wf(),
        ensures
            final(self).wf(),
            (final(self).state(), r@) == to_round(old(self).state(), now),
    {
        if self.timers.cleanup_due(now) {
            self.cache.cleanup_stale(now);
        }
        let urls: Vec<String> = self.search.urls_to_try();
        assert(texts(urls@).len() == urls@.len());
        self.phase = MonitorPhase::Fetching { tried: 0 };
        MonitorAction::Fetch { url: urls[0].as_str().to_owned() }
    }

    /// The monitor goes on with aircraft number `from`.
    fn go_through(&mut self, from: usize, config: &AdsbConfig, now: u64) -> (r: MonitorAction)
        requires
            old(self).cache.wf(),
            old(self).search.candidates@.len() > 0,
            from <= old(self).sightings@.len(),
        ensures
            final(self).wf(),
            (final(self).state(), r@) == to_scan(old(self).state(), from as int, *config, now),
    {
        let ghost start = self.state();
        let ghost whole = scan(
            start.tracks,
            start.cooldown,
            start.sightings,
            from as int,
            *config,
            now,
        );
        let mut i: usize = from;
        while i < self.sightings.len()
            invariant
                self.cache.wf(),
                self.search.candidates@.len() > 0,
                self.state() == (MonitorState { tracks: self.cache.tracks(), ..start }),
                i <= self.sightings@.len(),
                whole == scan(
                    self.cache.tracks(),
                    start.cooldown,
                    start.sightings,
                    i as int,
                    *config,
                    now,
                ),
                start == old(self).state(),
                whole == scan(
                    start.tracks,
                    start.cooldown,
                    start.sightings,
                    from as int,
                    *config,
                    now,
                ),
            decreases self.sightings@.len() - i,
        {
            let s: &Sighting = &self.sightings[i];
            if let Some(d) = s.distance_km {
                if check_approach(&mut self.cache, &s.record, d, config, now).is_some() {
                    let callsign: String = s.record.display_callsign();
                    let route_url: Option<String> = match plan_route(
                        &self.cache,
                        config,
                        callsign.as_str(),
                    ) {
                        RouteLookup::Ask(url) => Some(url),
                        RouteLookup::Known(_) => None,
                    };
                    let photo_url: Option<String> = match plan_photo(
                        &self.cache,
                        config,
                        s.record.hex.as_str(),
                    ) {
                        PhotoLookup::Ask(url) => Some(url),
                        PhotoLookup::Known(_) => None,
                    };
                    self.phase = MonitorPhase::Looking { at: i };
                    return MonitorAction::LookUp { route_url, photo_url };
                }
            }
            i = i + 1;
        }
        self.rest(config)
    }

    /// The address served the report.
    fn take_report(
        &mut self,
        tried: usize,
        sightings: Vec<Sighting>,
        config: &AdsbConfig,
        now: u64,
    ) -> (r: MonitorAction)
        requires
            old(self).wf(),
            tried < old(self).state().round().len(),
        ensures
            final(self).wf(),
            (final(self).state(), r@) == to_report(
                old(self).state(),
                tried as int,
                sightings@,
                *config,
                now,
            ),
    {
        let urls: Vec<String> = self.search.urls_to_try();
        assert(texts(urls@).len() == urls@.len());
        self.search.conclude(Some(urls[tried].as_str().to_owned()));
        self.sightings = sightings;
        if self.timers.heartbeat_due(now) {
            self.phase = MonitorPhase::Showing;
            MonitorAction::Show { line: describe_radar(&self.sightings) }
        } else {
            self.go_through(0, config, now)
        }
    }

    /// The address did not serve the report.
    fn try_next(
        &mut self,
        tried: usize,
        reason: &str,
        config: &AdsbConfig,
        now: u64,
    ) -> (r: MonitorAction)
        requires
            old(self).wf(),
            tried < old(self).state().round().len(),
        ensures
            final(self).wf(),
            (final(self).state(), r@) == to_next_address(
                old(self).state(),
                tried,
                reason@,
                *config,
                now,
            ),
    {
        let urls: Vec<String> = self.search.urls_to_try();
        assert(texts(urls@).len() == urls@.len());
        let n: usize = urls.len();
        if tried + 1 < n {
            self.phase = MonitorPhase::Fetching { tried: tried + 1 };
            return MonitorAction::Fetch { url: urls[tried + 1].as_str().to_owned() };
        }
        self.search.conclude(None);
        if self.timers.warning_due(now) {
            self.phase = MonitorPhase::Warning;
            MonitorAction::Warn {
                line: concat3(
                    "⚠️ ADS-B エンドポイントに接続できません (最新試行: ",
                    reason,
                    ")。dump1090 / readsb / Ultrafeeder コンテナが起動しているか確認してください",
                ),
            }
        } else {
            self.rest(config)
        }
    }

    /// The questions about an aircraft were answered.
    fn announce(
        &mut self,
        at: usize,
        route_reply: Option<Reply>,
        photo_reply: Option<Reply>,
        config: &AdsbConfig,
    ) -> (r: MonitorAction)
        requires
            old(self).wf(),
            old(self).phase == (MonitorPhase::Looking { at }),
        ensures
            final(self).wf(),
            ({
                let m = old(self).state();
                let record = m.sightings[at as int].record;
                (final(self).state(), r@) == to_announce(
                    m,
                    at,
                    *config,
                    route_found(m, *config, record.shown_name(), route_reply),
                    photo_found(m, *config, record.hex@, photo_reply),
                )
            }),
    {
        let s: &Sighting = &self.sightings[at];
        let callsign: String = s.record.display_callsign();
        let route: Option<FlightRoute> = match plan_route(&self.cache, config, callsign.as_str()) {
            RouteLookup::Known(x) => x,
            RouteLookup::Ask(_) => match route_reply {
                Some(r) => fetch_flight_route(callsign.as_str(), r.success, &r.body),
                None => None,
            },
        };
        let photo: Option<AircraftPhotoMeta> = match plan_photo(
            &self.cache,
            config,
            s.record.hex.as_str(),
        ) {
            PhotoLookup::Known(x) => x,
            PhotoLookup::Ask(_) => match photo_reply {
                Some(r) => fetch_aircraft_photo(r.success, &r.body),
                None => None,
            },
        };
        remember(
            &mut self.cache,
            config,
            callsign.as_str(),
            s.record.hex.as_str(),
            &route,
            &photo,
        );
        let altitude: Binary64 = match s.record.altitude_m() {
            Some(a) => a,
            None => Binary64::integer(0),
        };
        let distance: Binary64 = match s.distance_km {
            Some(d) => d,
            None => Binary64::integer(0),
        };
        let alert: AircraftAlert = build_approach_alert(
            &s.record,
            altitude,
            distance,
            &route,
            &photo,
            config.tar1090_url.as_str(),
        );
        let speech: Option<String> = if config.voice_alert {
            Some(build_voice_text(&alert))
        } else {
            None
        };
        self.phase = MonitorPhase::Announcing { at };
        MonitorAction::Announce { alert, discord: config.discord_alert, speech }
    }

    /// A monitor that starts at `now`, and what it does first: it rests.
    pub fn start(config: &AdsbConfig, now: u64) -> (r: (Self, MonitorAction))
        requires
            config.cooldown_minutes * 60 <= u64::MAX,
            config.data_url@.len() < 0x1500_0000,
        ensures
            r.0.wf(),
            (r.0.state(), r.1@) == to_rest(
                MonitorState {
                    phase: MonitorPhase::Resting,
                    candidates: candidate_urls(config.data_url@),
                    active: None,
                    cooldown: config.cooldown_minutes * 60_000,
                    tracks: Map::empty(),
                    routes: Map::empty(),
                    photos: Map::empty(),
                    timers: MonitorTimers { cleanup: now, heartbeat: now, warning: None },
                    sightings: Seq::empty(),
                },
                *config,
            ),
    {
        let m: Monitor = Monitor {
            phase: MonitorPhase::Resting,
            search: EndpointSearch::new(config.data_url.as_str()),
            cache: AdsbCache::new(config.cooldown_minutes),
            timers: MonitorTimers::start(now),
            sightings: Vec::new(),
        };
        proof {
            law_candidates_are_distinct(
                config.data_url@,
                Seq::new(4, |i: int| url_with_path(config.data_url@, common_paths()[i])),
            );
            assert(texts(m.search.candidates@).len() == m.search.candidates@.len());
            assert(m.cache.known_routes() =~= Map::empty());
            assert(m.cache.known_photos() =~= Map::empty());
        }
        (m, MonitorAction::Sleep { secs: poll_interval_secs(config) })
    }

    /// What the monitor does next, after `event` at `now`.
    pub fn step(&mut self, event: MonitorEvent, now: u64, config: &AdsbConfig) -> (r: MonitorAction)
        requires
            old(self).wf(),
            monitor_expects(old(self).phase, event),
        ensures
            final(self).wf(),
            (final(self).state(), r@) == monitor_next(old(self).state(), event, now, *config),
    {
        match (self.phase, event) {
            (MonitorPhase::Resting, MonitorEvent::Done) => self.begin_round(now),
            (
                MonitorPhase::Fetching { tried },
                MonitorEvent::Report { sightings },
            ) => self.take_report(tried, sightings, config, now),
            (MonitorPhase::Fetching { tried }, MonitorEvent::NoReport { reason }) => self.try_next(
                tried,
                reason.as_str(),
                config,
                now,
            ),
            (MonitorPhase::Warning, MonitorEvent::Done) => self.rest(config),
            (MonitorPhase::Showing, MonitorEvent::Done) => self.go_through(0, config, now),
            (
                MonitorPhase::Looking { at },
                MonitorEvent::Replies { route, photo },
            ) => self.announce(at, route, photo, config),
            (MonitorPhase::Announcing { at }, MonitorEvent::Done) => {
                let n: usize = self.sightings.len();
                assert(at < n);
                self.go_through(at + 1, config, now)
            },
            _ => {
                self.phase = MonitorPhase::Ended;
                MonitorAction::Quit
            },
        }
    }
}

// ---- laws ----

/// An aircraft that is picked is in the report, near and due, and is noted as announced. No
/// aircraft before it that is near was due: none is passed over, and where none is picked none was
/// left to announce.
pub proof fn law_near_aircraft_are_announced(
    tracks: Map<Seq<char>, TrackState>,
    cooldown: int,
    sightings: Seq<Sighting>,
    from: int,
    config: AdsbConfig,
    now: u64,
)
    requires
        0 <= from <= sightings.len(),
    ensures
        ({
            let (after, found) = scan(tracks, cooldown, sightings, from, config, now);
            let end = match found {
                Some(at) => at,
                None => sightings.len() as int,
            };
            &&& from <= end <= sightings.len()
            &&& found is Some ==> {
                let s = sightings[end];
                &&& end < sightings.len()
                &&& comes_near(s, config)
                &&& is_due(tracks, cooldown, s.record.hex@, now)
                &&& after.dom().contains(s.record.hex@)
                &&& after[s.record.hex@].last_notified == Some(now)
            }
            &&& forall|i: int|
                from <= i < end && comes_near(#[trigger] sightings[i], config) ==> !is_due(
                    tracks,
                    cooldown,
                    sightings[i].record.hex@,
                    now,
                )
        }),
    decreases sightings.len() - from,
{
    if from < sightings.len() {
        let s = sightings[from];
        let hex = s.record.hex@;
        if !comes_near(s, config) {
            law_near_aircraft_are_announced(tracks, cooldown, sightings, from + 1, config, now);
        } else if !is_due(tracks, cooldown, hex, now) {
            let seen = tracks_seen(tracks, hex, s.distance_km->0, now);
            law_near_aircraft_are_announced(seen, cooldown, sightings, from + 1, config, now);
            assert forall|other: Seq<char>|
                is_due(seen, cooldown, other, now) == #[trigger] is_due(
                    tracks,
                    cooldown,
                    other,
                    now,
                ) by {
                law_seen_is_not_announced(tracks, cooldown, hex, s.distance_km->0, now, now);
            }
        }
    }
}

/// An aircraft that was announced is not picked again before the cooldown is over, wherever it
/// stands in the report, and stays noted as announced.
pub proof fn law_no_aircraft_is_announced_twice(
    tracks: Map<Seq<char>, TrackState>,
    cooldown: int,
    sightings: Seq<Sighting>,
    from: int,
    config: AdsbConfig,
    hex: Seq<char>,
    then: u64,
    now: u64,
)
    requires
        tracks.dom().contains(hex),
        tracks[hex].last_notified == Some(then),
        elapsed(now, then) < cooldown,
    ensures
        ({
            let (after, found) = scan(tracks, cooldown, sightings, from, config, now);
            &&& found matches Some(at) ==> sightings[at].record.hex@ != hex
            &&& after.dom().contains(hex)
            &&& after[hex].last_notified == Some(then)
        }),
    decreases sightings.len() - from,
{
    if 0 <= from < sightings.len() {
        let s = sightings[from];
        if !comes_near(s, config) {
            law_no_aircraft_is_announced_twice(
                tracks,
                cooldown,
                sightings,
                from + 1,
                config,
                hex,
                then,
                now,
            );
        } else if !is_due(tracks, cooldown, s.record.hex@, now) {
            law_no_aircraft_is_announced_twice(
                tracks_seen(tracks, s.record.hex@, s.distance_km->0, now),
                cooldown,
                sightings,
                from + 1,
                config,
                hex,
                then,
                now,
            );
        }
    }
}

/// A round in which no address serves the report changes nothing that is known of the aircraft.
/// It ends when the last address was asked; the next round then asks all of them in their own
/// order.
pub proof fn law_a_silent_round_forgets_no_aircraft(
    m: MonitorState,
    tried: usize,
    reason: String,
    now: u64,
    config: AdsbConfig,
)
    requires
        m.phase == (MonitorPhase::Fetching { tried }),
    ensures
        ({
            let (after, action) = monitor_next(m, MonitorEvent::NoReport { reason }, now, config);
            &&& after.tracks == m.tracks && after.routes == m.routes && after.photos == m.photos
            &&& tried + 1 < m.round().len() ==> action == (MonitorActionText::Fetch {
                url: m.round()[tried + 1],
            })
            &&& tried + 1 >= m.round().len() ==> after.active is None && after.round()
                == m.candidates
        }),
{
}

/// The monitor ends when its rest is interrupted, and only then.
pub proof fn law_only_an_interruption_ends_the_monitor(
    m: MonitorState,
    event: MonitorEvent,
    now: u64,
    config: AdsbConfig,
)
    requires
        monitor_expects(m.phase, event),
    ensures
        monitor_next(m, event, now, config).1 is Quit <==> event is Interrupted,
        monitor_next(m, event, now, config).0.phase is Ended <==> event is Interrupted,
{
}

/// The address that served the report is asked first in the next round.
pub proof fn law_the_serving_address_comes_first(
    m: MonitorState,
    tried: usize,
    sightings: Vec<Sighting>,
    now: u64,
    config: AdsbConfig,
)
    requires
        m.phase == (MonitorPhase::Fetching { tried }),
    ensures
        monitor_next(m, MonitorEvent::Report { sightings }, now, config).0.round()[0]
            == m.round()[tried as int],
{
}

/// Every report is gone through from its first aircraft: at once, or behind the line on the radar,
/// which is shown every half minute. The monitor then finds out about the first aircraft that is
/// near and due, or rests where there is none.
pub proof fn law_reports_are_gone_through(
    m: MonitorState,
    tried: usize,
    sightings: Vec<Sighting>,
    now: u64,
    later: u64,
    config: AdsbConfig,
)
    requires
        m.phase == (MonitorPhase::Fetching { tried }),
        m.timers.heartbeat <= now,
    ensures
        ({
            let one = monitor_next(m, MonitorEvent::Report { sightings }, now, config);
            let shown = one.1 is Show;
            let two = monitor_next(one.0, MonitorEvent::Done, later, config);
            let last = if shown {
                two
            } else {
                one
            };
            let time = if shown {
                later
            } else {
                now
            };
            let found = scan(m.tracks, m.cooldown, sightings@, 0, config, time);
            &&& shown <==> now - m.timers.heartbeat >= 30_000
            &&& shown ==> one.0.timers.heartbeat == now
            &&& last.0.sightings == sightings@
            &&& last.0.tracks == found.0
            &&& found.1 matches Some(at) ==> 0 <= at && last.0.phase == (MonitorPhase::Looking {
                at: at as usize,
            }) && last.1 is LookUp
            &&& found.1 is None ==> last.0.phase == MonitorPhase::Resting && last.1 is Sleep
        }),
{
    law_near_aircraft_are_announced(m.tracks, m.cooldown, sightings@, 0, config, now);
    law_near_aircraft_are_announced(m.tracks, m.cooldown, sightings@, 0, config, later);
}

/// An aircraft that was picked is announced with what is its own, on the channels that are wanted,
/// and the monitor goes on behind it.
pub proof fn law_picked_aircraft_are_announced(
    m: MonitorState,
    at: usize,
    route: Option<Reply>,
    photo: Option<Reply>,
    now: u64,
    later: u64,
    config: AdsbConfig,
)
    requires
        m.phase == (MonitorPhase::Looking { at }),
        at < m.sightings.len(),
    ensures
        ({
            let s = m.sightings[at as int];
            let one = monitor_next(m, MonitorEvent::Replies { route, photo }, now, config);
            let two = monitor_next(one.0, MonitorEvent::Done, later, config);
            let found = scan(m.tracks, m.cooldown, m.sightings, at + 1, config, later);
            &&& one.1 matches MonitorActionText::Announce { alert, discord, speech } && {
                &&& alert.icao_hex == s.record.hex@
                &&& alert.callsign == s.record.shown_name()
                &&& alert.altitude_m == s.record.altitude()->0
                &&& alert.distance_km == s.distance_km->0
                &&& alert.tar1090_url == config.tar1090_url@
                &&& discord == config.discord_alert
                &&& speech is Some <==> config.voice_alert
                &&& speech matches Some(words) ==> words == voice_text(alert)
            }
            &&& found.1 matches Some(next) ==> two.0.phase == (MonitorPhase::Looking {
                at: next as usize,
            })
            &&& found.1 is None ==> two.0.phase == MonitorPhase::Resting
        }),
{
}

/// Nothing is asked that is not wanted or that is known: a route is asked for by the name of the
/// flight and a photo by the address of the aircraft, once, and the answer is remembered.
pub proof fn law_nothing_is_asked_twice(
    m: MonitorState,
    from: int,
    route: Option<Reply>,
    photo: Option<Reply>,
    now: u64,
    config: AdsbConfig,
)
    requires
        0 <= from <= m.sightings.len() <= usize::MAX,
    ensures
        to_scan(m, from, config, now) matches (
            after,
            MonitorActionText::LookUp { route_url, photo_url },
        ) ==> {
            let at = after.phase->Looking_at;
            let record = m.sightings[at as int].record;
            let done = monitor_next(after, MonitorEvent::Replies { route, photo }, now, config).0;
            &&& route_url is Some <==> config.fetch_routes && !m.routes.dom().contains(
                record.shown_name(),
            )
            &&& photo_url is Some <==> config.fetch_photos && !m.photos.dom().contains(record.hex@)
            &&& route_url matches Some(url) ==> record.shown_name().is_suffix_of(url)
            &&& photo_url matches Some(url) ==> record.hex@.is_suffix_of(url)
            &&& config.fetch_routes ==> done.routes.dom().contains(record.shown_name())
            &&& config.fetch_photos ==> done.photos.dom().contains(record.hex@)
            &&& config.fetch_routes && m.routes.dom().contains(record.shown_name())
                ==> done.routes[record.shown_name()] == m.routes[record.shown_name()]
            &&& config.fetch_photos && m.photos.dom().contains(record.hex@)
                ==> done.photos[record.hex@] == m.photos[record.hex@]
        },
{
    law_near_aircraft_are_announced(m.tracks, m.cooldown, m.sightings, from, config, now);
    let found = scan(m.tracks, m.cooldown, m.sightings, from, config, now);
    if let Some(at) = found.1 {
        let record = m.sightings[at].record;
        let a = "https://hexdb.io/api/v1/route/icao/"@;
        let b = "https://api.planespotters.net/pub/photos/hex/"@;
        let name = record.shown_name();
        let hex = record.hex@;
        assert((a + name).subrange(a.len() as int, (a + name).len() as int) =~= name);
        assert((b + hex).subrange(b.len() as int, (b + hex).len() as int) =~= hex);
    }
}

/// A round begins with the first address when the rest is over; lost aircraft are forgotten more
/// than ten minutes after the last time, and nothing else changes.
pub proof fn law_rounds_begin_after_the_rest(m: MonitorState, now: u64, config: AdsbConfig)
    requires
        m.phase == MonitorPhase::Resting,
        m.timers.cleanup <= now,
        m.round().len() > 0,
    ensures
        ({
            let n = monitor_next(m, MonitorEvent::Done, now, config);
            let clean = now - m.timers.cleanup > 600_000;
            &&& n.1 == (MonitorActionText::Fetch { url: m.round()[0] })
            &&& n.0.phase == (MonitorPhase::Fetching { tried: 0 })
            &&& n.0.tracks == if clean {
                tracks_fresh(m.tracks, now)
            } else {
                m.tracks
            }
            &&& n.0.timers.cleanup == if clean {
                now
            } else {
                m.timers.cleanup
            }
            &&& n.0.routes == m.routes && n.0.photos == m.photos && n.0.active == m.active
                && n.0.candidates == m.candidates && n.0.cooldown == m.cooldown
        }),
{
}

/// The monitor warns where no address serves the report, at most every half minute, with the last
/// reason, and rests for the time between two rounds, a second at least.
pub proof fn law_silence_is_warned_of(
    m: MonitorState,
    tried: usize,
    reason: String,
    now: u64,
    later: u64,
    config: AdsbConfig,
)
    requires
        m.phase == (MonitorPhase::Fetching { tried }),
        tried + 1 >= m.round().len(),
        m.timers.warning matches Some(then) ==> then <= now,
    ensures
        ({
            let n = monitor_next(m, MonitorEvent::NoReport { reason }, now, config);
            let last = if n.1 is Warn {
                monitor_next(n.0, MonitorEvent::Done, later, config)
            } else {
                n
            };
            &&& n.1 is Warn <==> m.timers.warning is None || now - m.timers.warning->0 >= 30_000
            &&& n.1 matches MonitorActionText::Warn { line } ==> has_text(line, reason@)
                && n.0.timers.warning == Some(now)
            &&& last.0.phase == MonitorPhase::Resting
            &&& last.1 matches MonitorActionText::Sleep { secs } && secs >= 1 && (
            config.poll_interval_secs >= 1 ==> secs == config.poll_interval_secs)
        }),
{
    lemma_has_part(
        "⚠️ ADS-B エンドポイントに接続できません (最新試行: "@,
        reason@,
        ")。dump1090 / readsb / Ultrafeeder コンテナが起動しているか確認してください"@,
    );
}

/// The line on the radar counts the aircraft and those with a position, and names the nearest with
/// its distance and height.
pub proof fn law_radar_line_names_the_nearest(sightings: Seq<Sighting>, i: int)
    requires
        is_closest(distances_in(sightings), i),
    ensures
        ({
            let line = radar_text(sightings);
            let s = sightings[i];
            &&& has_text(line, "捕捉 "@ + digits(sightings.len()))
            &&& has_text(line, "最接近: "@ + s.record.shown_name())
            &&& has_text(line, fixed_text(s.distance_km->0, 1) + "km"@)
            &&& s.record.altitude() matches Some(a) ==> has_text(
                line,
                "高度 "@ + fixed_text(a, 0) + "m"@,
            )
        }),
        forall|j: int|
            0 <= j < sightings.len() && (#[trigger] sightings[j]).distance_km is Some
                ==> sightings[i].distance_km->0.order() <= sightings[j].distance_km->0.order(),
{
    let distances = distances_in(sightings);
    let c = choose|c: int| is_closest(distances, c);
    assert(is_closest(distances, c));
    assert(distances[i] is Some && distances[c] is Some);
    assert(c == i);
    let s = sightings[i];
    let name = s.record.shown_name();
    let far = fixed_text(distances[i]->0, 1);
    let high = fixed_text(number_or(s.record.altitude(), of_integer(0)), 0);
    let a = "📡 ADS-B レーダー状況: 捕捉 "@;
    let n = digits(sightings.len());
    let b = " 機 (位置確定 "@;
    let placed = digits(placed_count(distances));
    let p = " 機) | 最接近: "@;
    let q = " ("@;
    let u = "km, 高度 "@;
    let v = "m)"@;
    reveal_strlit("📡 ADS-B レーダー状況: 捕捉 ");
    reveal_strlit("捕捉 ");
    reveal_strlit(" 機) | 最接近: ");
    reveal_strlit("最接近: ");
    reveal_strlit("km, 高度 ");
    reveal_strlit("km");
    reveal_strlit("高度 ");
    reveal_strlit("m)");
    reveal_strlit("m");
    lemma_ends_with(a, "捕捉 "@);
    lemma_ends_with(p, "最接近: "@);
    lemma_ends_with(u, "高度 "@);
    assert("km"@.is_prefix_of(u)) by {
        assert(u.subrange(0, 2) =~= "km"@);
    }
    assert(n.subrange(0, n.len() as int) =~= n);
    assert(name.subrange(0, name.len() as int) =~= name);
    lemma_ends_with(far, far);
    let e = Seq::<char>::empty();
    assert(e + a =~= a);
    let to_n = a + n;
    let to_b = to_n + b;
    let to_p = to_b + placed + p;
    let to_name = to_p + name;
    let to_far = to_name + q + far;
    let to_u = to_far + u;
    let to_high = to_u + high;
    let first = "捕捉 "@ + n;
    lemma_has_across(e, a, "捕捉 "@, n, n);
    lemma_has_more(to_n, b, first);
    lemma_has_more(to_b, placed, first);
    lemma_has_more(to_b + placed, p, first);
    lemma_has_more(to_p, name, first);
    lemma_has_more(to_name, q, first);
    lemma_has_more(to_name + q, far, first);
    lemma_has_more(to_far, u, first);
    lemma_has_more(to_u, high, first);
    lemma_has_more(to_high, v, first);
    let second = "最接近: "@ + name;
    lemma_has_across(to_b + placed, p, "最接近: "@, name, name);
    lemma_has_more(to_name, q, second);
    lemma_has_more(to_name + q, far, second);
    lemma_has_more(to_far, u, second);
    lemma_has_more(to_u, high, second);
    lemma_has_more(to_high, v, second);
    let third = far + "km"@;
    lemma_has_across(to_name + q, far, far, u, "km"@);
    lemma_has_more(to_u, high, third);
    lemma_has_more(to_high, v, third);
    let value = high + "m"@;
    assert(value.is_prefix_of(high + v)) by {
        assert((high + v).subrange(0, value.len() as int) =~= value);
    }
    lemma_has_across(to_far, u, "高度 "@, high + v, value);
    assert(to_far + u + (high + v) =~= to_high + v);
    assert("高度 "@ + value =~= "高度 "@ + high + "m"@);
    assert(radar_text(sightings) == to_high + v);
    assert forall|j: int|
        0 <= j < sightings.len() && (#[trigger] sightings[j]).distance_km is Some implies
        sightings[i].distance_km->0.order() <= sightings[j].distance_km->0.order() by {
        assert(distances[j] == sightings[j].distance_km);
    }
}

/// The line on the radar counts the aircraft that report their position, and says that there is
/// none to name where none does.
pub proof fn law_radar_line_counts_positions(
    sightings: Seq<Sighting>,
    distances: Seq<Option<Binary64>>,
    d: Option<Binary64>,
)
    ensures
        placed_count(distances.push(d)) == placed_count(distances) + (if d is Some {
            1int
        } else {
            0
        }),
        placed_count(Seq::empty()) == 0,
        (forall|i: int| 0 <= i < sightings.len() ==> (#[trigger] sightings[i]).distance_km is None)
            ==> has_text(radar_text(sightings), "位置確定 0 機"@),
        (exists|i: int| is_closest(distances_in(sightings), i)) ==> has_text(
            radar_text(sightings),
            "位置確定 "@ + digits(placed_count(distances_in(sightings))),
        ),
{
    let keep = |x: Option<Binary64>| x is Some;
    lemma_filter_push(distances, d, keep);
    reveal(Seq::filter);
    assert(Seq::<Option<Binary64>>::empty().filter(keep).len() == 0);
    let all = distances_in(sightings);
    let a = "📡 ADS-B レーダー状況: 捕捉 "@;
    let n = digits(sightings.len());
    let b = " 機 (位置確定 "@;
    reveal_strlit(" 機 (位置確定 ");
    reveal_strlit("位置確定 ");
    reveal_strlit("位置確定 0 機");
    reveal_strlit("0 機) | 電波待機中...");
    lemma_ends_with(b, "位置確定 "@);
    if exists|i: int| is_closest(all, i) {
        let i = choose|i: int| is_closest(all, i);
        let placed = digits(placed_count(all));
        assert(placed.subrange(0, placed.len() as int) =~= placed);
        lemma_has_across(a + n, b, "位置確定 "@, placed, placed);
        let s = sightings[i];
        let part = "位置確定 "@ + placed;
        let t0 = a + n + b + placed;
        let t1 = t0 + " 機) | 最接近: "@;
        let t2 = t1 + s.record.shown_name();
        let t3 = t2 + " ("@;
        let t4 = t3 + fixed_text(all[i]->0, 1);
        let t5 = t4 + "km, 高度 "@;
        let t6 = t5 + fixed_text(number_or(s.record.altitude(), of_integer(0)), 0);
        lemma_has_more(t0, " 機) | 最接近: "@, part);
        lemma_has_more(t1, s.record.shown_name(), part);
        lemma_has_more(t2, " ("@, part);
        lemma_has_more(t3, fixed_text(all[i]->0, 1), part);
        lemma_has_more(t4, "km, 高度 "@, part);
        lemma_has_more(t5, fixed_text(number_or(s.record.altitude(), of_integer(0)), 0), part);
        lemma_has_more(t6, "m)"@, part);
    }
    if forall|i: int| 0 <= i < sightings.len() ==> (#[trigger] sightings[i]).distance_km is None {
        assert forall|i: int| !is_closest(all, i) by {
            if 0 <= i < all.len() {
                assert(sightings[i].distance_km is None);
                assert(all[i] == sightings[i].distance_km);
            }
        }
        let c = "0 機) | 電波待機中..."@;
        let zero = c.take(3);
        assert(zero.is_prefix_of(c)) by {
            assert(c.subrange(0, 3) =~= zero);
        }
        lemma_has_across(a + n, b, "位置確定 "@, c, zero);
        assert("位置確定 "@ + zero =~= "位置確定 0 機"@);
    }
}

/// An aircraft comes near only where its distance is known and it is within the limits.
pub proof fn law_near_needs_a_distance(s: Sighting, config: AdsbConfig)
    ensures
        comes_near(s, config) <==> s.distance_km is Some && is_near(
            s.record,
            s.distance_km->0,
            config,
        ),
{
}

/// What is announced of an aircraft is what was found out: the answer where it was asked for, what
/// is remembered where it was not, and nothing where it is not wanted; an answer that failed tells
/// nothing.
pub proof fn law_answers_are_announced(
    m: MonitorState,
    at: usize,
    route: Option<Reply>,
    photo: Option<Reply>,
    now: u64,
    config: AdsbConfig,
)
    requires
        m.phase == (MonitorPhase::Looking { at }),
        at < m.sightings.len(),
    ensures
        ({
            let s = m.sightings[at as int];
            let name = s.record.shown_name();
            let hex = s.record.hex@;
            let way = if !config.fetch_routes {
                None
            } else if m.routes.dom().contains(name) {
                m.routes[name]
            } else {
                reply_route(name, route)
            };
            let picture = if !config.fetch_photos {
                None
            } else if m.photos.dom().contains(hex) {
                m.photos[hex]
            } else {
                reply_photo(photo)
            };
            let n = monitor_next(m, MonitorEvent::Replies { route, photo }, now, config);
            &&& n.1 matches MonitorActionText::Announce { alert, .. } && alert == approach_alert(
                s.record,
                s.record.altitude()->0,
                s.distance_km->0,
                way,
                picture,
                config.tar1090_url@,
            )
            &&& route is None || !route->0.success || route->0.body is None ==> reply_route(
                name,
                route,
            ) is None
            &&& photo is None || !photo->0.success || photo->0.body is None ==> reply_photo(
                photo,
            ) is None
            &&& route is Some && route->0.success && route->0.body is Some ==> reply_route(
                name,
                route,
            ) == (match json_document(route->0.body->0@) {
                Some(doc) => route_in(name, doc),
                None => None,
            })
            &&& photo is Some && photo->0.success && photo->0.body is Some ==> reply_photo(photo)
                == (match json_document(photo->0.body->0@) {
                Some(doc) => photo_in(doc),
                None => None,
            })
        }),
{
}

/// The plain values of an action are those that it is carried out with.
pub proof fn law_actions_are_what_they_say(a: MonitorAction)
    ensures
        a is Quit <==> a@ is Quit,
        a matches MonitorAction::Sleep { secs } ==> a@ == (MonitorActionText::Sleep { secs }),
        a matches MonitorAction::Fetch { url } ==> a@ == (MonitorActionText::Fetch { url: url@ }),
        a matches MonitorAction::Warn { line } ==> a@ == (MonitorActionText::Warn { line: line@ }),
        a matches MonitorAction::Show { line } ==> a@ == (MonitorActionText::Show { line: line@ }),
        a matches MonitorAction::LookUp { route_url, photo_url } ==> a@ == (
        MonitorActionText::LookUp {
            route_url: opt_text(route_url),
            photo_url: opt_text(photo_url),
        }),
        a matches MonitorAction::Announce { alert, discord, speech } ==> a@ == (
        MonitorActionText::Announce { alert: alert@, discord, speech: opt_text(speech) }),
{
}

} // verus!
