//! Aircraft near the station: reading their reports, deciding when one is near, and announcing it.

use crate::binary64::{
    bits_of, fixed_text, law_no_number_is_nearer, lemma_bits, lemma_two_positive, of_bits,
    of_integer, of_ratio, off, product, rounded_away, two, units, Binary64, INFINITY,
};
use crate::config::AdsbConfig;
use crate::discord::AircraftAlert;
use crate::json::{json_document, lemma_list, parse_json, Json, JsonText};
use crate::text::{
    ascii_lower, copy_opt, has_text, lemma_has_across, lemma_has_behind, lemma_has_more,
    lemma_has_part, lemma_last_part, lemma_reaches, opt_text, push_text, same, same_ignoring_case,
    signed_decimal, signed_digits, texts, trim, trimmed,
};
use crate::textmap::TextMap;
use vstd::prelude::*;

verus! {

/// Feet as metres. A foot is 0.3048 m.
pub open spec fn feet_to_metres(feet: Binary64) -> Binary64 {
    product(feet, of_ratio(3_048, 10_000))
}

/// Knots as kilometres an hour. A knot is 1.852 km/h.
pub open spec fn knots_to_kmh(knots: Binary64) -> Binary64 {
    product(knots, of_ratio(1_852, 1_000))
}

/// The altitude in metres that a report gives: a number of feet, or the word "ground".
pub open spec fn altitude_in(value: JsonText) -> Option<Binary64> {
    match value {
        JsonText::Number(_, Some(bits)) => match of_bits(bits) {
            Some(feet) => Some(feet_to_metres(feet)),
            None => None,
        },
        JsonText::Text(s) => if ascii_lower(s) == ascii_lower("ground"@) {
            Some(of_integer(0))
        } else {
            None
        },
        _ => None,
    }
}

/// The altitude in metres that a report gives.
pub fn parse_altitude_m(value: &Json) -> (r: Option<Binary64>)
    ensures
        r == altitude_in(value@),
{
    match value {
        Json::Number(_, Some(bits)) => match Binary64::from_bits(*bits) {
            Some(feet) => Some(feet.times(Binary64::ratio(3_048, 10_000))),
            None => None,
        },
        Json::Text(s) => if same_ignoring_case(s.as_str(), "ground") {
            Some(Binary64::integer(0))
        } else {
            None
        },
        _ => None,
    }
}

/// The report of one aircraft.
#[derive(Debug)]
pub struct AircraftRecord {
    /// The ICAO address, in hexadecimal.
    pub hex: String,
    pub flight: Option<String>,
    /// Barometric altitude: feet, or the word "ground".
    pub alt_baro: Option<Json>,
    /// Ground speed in knots.
    pub gs: Option<Binary64>,
    pub track: Option<Binary64>,
    pub lat: Option<Binary64>,
    pub lon: Option<Binary64>,
    pub seen: Option<Binary64>,
}

impl AircraftRecord {
    /// The call sign without the white space at its ends, unless it is blank.
    pub open spec fn callsign(self) -> Option<Seq<char>> {
        match self.flight {
            Some(f) => if trimmed(f@).len() > 0 {
                Some(trimmed(f@))
            } else {
                None
            },
            None => None,
        }
    }

    /// The call sign, or the address where there is none.
    pub open spec fn shown_name(self) -> Seq<char> {
        match self.callsign() {
            Some(c) => c,
            None => "HEX-"@ + self.hex@,
        }
    }

    /// The altitude in metres.
    pub open spec fn altitude(self) -> Option<Binary64> {
        match self.alt_baro {
            Some(v) => altitude_in(v@),
            None => None,
        }
    }

    /// The ground speed in km/h.
    pub open spec fn speed(self) -> Option<Binary64> {
        match self.gs {
            Some(knots) => Some(knots_to_kmh(knots)),
            None => None,
        }
    }

    /// The call sign without the white space at its ends, unless it is blank.
    pub fn clean_callsign(&self) -> (r: Option<String>)
        ensures
            opt_text(r) == self.callsign(),
    {
        match &self.flight {
            Some(f) => {
                let t: &str = trim(f.as_str());
                if t.is_empty() {
                    None
                } else {
                    Some(t.to_owned())
                }
            },
            None => None,
        }
    }

    /// The call sign, or the address where there is none.
    pub fn display_callsign(&self) -> (r: String)
        ensures
            r@ == self.shown_name(),
    {
        match self.clean_callsign() {
            Some(c) => c,
            None => {
                let mut r: String = "HEX-".to_owned();
                r.append(self.hex.as_str());
                r
            },
        }
    }

    /// The altitude in metres.
    pub fn altitude_m(&self) -> (r: Option<Binary64>)
        ensures
            r == self.altitude(),
    {
        match &self.alt_baro {
            Some(v) => parse_altitude_m(v),
            None => None,
        }
    }

    /// The ground speed in km/h.
    pub fn speed_kmh(&self) -> (r: Option<Binary64>)
        ensures
            r == self.speed(),
    {
        match self.gs {
            Some(knots) => Some(knots.times(Binary64::ratio(1_852, 1_000))),
            None => None,
        }
    }

    /// Whether the report gives a position.
    pub fn has_position(&self) -> (r: bool)
        ensures
            r == (self.lat is Some && self.lon is Some),
    {
        self.lat.is_some() && self.lon.is_some()
    }
}

/// The report of a receiver.
#[derive(Debug)]
pub struct AircraftJson {
    /// Unix time in seconds.
    pub now: Binary64,
    pub messages: Option<u64>,
    pub aircraft: Vec<AircraftRecord>,
}

/// Where a flight comes from and goes to.
#[derive(Clone, Debug, PartialEq)]
pub struct FlightRoute {
    pub callsign: String,
    pub origin_iata: Option<String>,
    pub origin_name: Option<String>,
    pub destination_iata: Option<String>,
    pub destination_name: Option<String>,
}

/// A photo of an aircraft.
#[derive(Clone, Debug, PartialEq)]
pub struct AircraftPhotoMeta {
    pub thumbnail_large: String,
    pub photographer: String,
    pub aircraft_type: Option<String>,
    pub airline_name: Option<String>,
}

/// A route, as plain values.
pub struct RouteText {
    pub callsign: Seq<char>,
    pub origin_iata: Option<Seq<char>>,
    pub origin_name: Option<Seq<char>>,
    pub destination_iata: Option<Seq<char>>,
    pub destination_name: Option<Seq<char>>,
}

/// A photo, as plain values.
pub struct PhotoText {
    pub thumbnail_large: Seq<char>,
    pub photographer: Seq<char>,
    pub aircraft_type: Option<Seq<char>>,
    pub airline_name: Option<Seq<char>>,
}

impl View for FlightRoute {
    type V = RouteText;

    open spec fn view(&self) -> RouteText {
        RouteText {
            callsign: self.callsign@,
            origin_iata: opt_text(self.origin_iata),
            origin_name: opt_text(self.origin_name),
            destination_iata: opt_text(self.destination_iata),
            destination_name: opt_text(self.destination_name),
        }
    }
}

impl View for AircraftPhotoMeta {
    type V = PhotoText;

    open spec fn view(&self) -> PhotoText {
        PhotoText {
            thumbnail_large: self.thumbnail_large@,
            photographer: self.photographer@,
            aircraft_type: opt_text(self.aircraft_type),
            airline_name: opt_text(self.airline_name),
        }
    }
}

/// What an optional route holds.
pub open spec fn opt_route(r: Option<FlightRoute>) -> Option<RouteText> {
    match r {
        Some(x) => Some(x@),
        None => None,
    }
}

/// What an optional photo holds.
pub open spec fn opt_photo(p: Option<AircraftPhotoMeta>) -> Option<PhotoText> {
    match p {
        Some(x) => Some(x@),
        None => None,
    }
}

/// The text under `key` in the object under `outer`.
pub open spec fn text_below(doc: JsonText, outer: Seq<char>, key: Seq<char>) -> Option<Seq<char>> {
    match doc.member(outer) {
        Some(v) => v.member_text(key),
        None => None,
    }
}

/// The text under `key` in the object under `outer`.
fn get_below(doc: &Json, outer: &str, key: &str) -> (r: Option<String>)
    ensures
        opt_text(r) == text_below(doc@, outer@, key@),
{
    match doc.get(outer) {
        Some(v) => match v.get_str(key) {
            Some(s) => Some(s.to_owned()),
            None => None,
        },
        None => None,
    }
}

/// The route in a reply, where it gives the code of at least one airport.
pub open spec fn route_in(callsign: Seq<char>, doc: JsonText) -> Option<RouteText> {
    let from = text_below(doc, "origin"@, "iata"@);
    let to = text_below(doc, "destination"@, "iata"@);
    if from is None && to is None {
        None
    } else {
        Some(
            RouteText {
                callsign,
                origin_iata: from,
                origin_name: text_below(doc, "origin"@, "name"@),
                destination_iata: to,
                destination_name: text_below(doc, "destination"@, "name"@),
            },
        )
    }
}

/// The first element, where the value is a list that has one.
pub open spec fn first_in(doc: JsonText) -> Option<JsonText> {
    match doc {
        JsonText::List(items) => if items.len() > 0 {
            Some(items[0])
        } else {
            None
        },
        _ => None,
    }
}

/// The first photo in a reply, where it has an address.
pub open spec fn photo_in(doc: JsonText) -> Option<PhotoText> {
    match doc.member("photos"@) {
        None => None,
        Some(list) => match first_in(list) {
            None => None,
            Some(first) => match text_below(first, "thumbnail_large"@, "src"@) {
                None => None,
                Some(src) => Some(
                    PhotoText {
                        thumbnail_large: src,
                        photographer: match first.member_text("photographer"@) {
                            Some(name) => name,
                            None => "Unknown Photographer"@,
                        },
                        aircraft_type: first.member_text("aircraft_type"@),
                        airline_name: text_below(first, "airline"@, "name"@),
                    },
                ),
            },
        },
    }
}

/// The route in a reply.
pub fn route_from_json(callsign: &str, doc: &Json) -> (r: Option<FlightRoute>)
    ensures
        opt_route(r) == route_in(callsign@, doc@),
{
    let origin_iata: Option<String> = get_below(doc, "origin", "iata");
    let destination_iata: Option<String> = get_below(doc, "destination", "iata");
    if origin_iata.is_none() && destination_iata.is_none() {
        return None;
    }
    Some(
        FlightRoute {
            callsign: callsign.to_owned(),
            origin_iata,
            origin_name: get_below(doc, "origin", "name"),
            destination_iata,
            destination_name: get_below(doc, "destination", "name"),
        },
    )
}

/// The route in the text of a reply.
pub fn parse_hexdb_route(callsign: &str, json_str: &str) -> (r: Option<FlightRoute>)
    ensures
        opt_route(r) == match json_document(json_str@) {
            Some(doc) => route_in(callsign@, doc),
            None => None,
        },
{
    match parse_json(json_str) {
        Some(doc) => route_from_json(callsign, &doc),
        None => None,
    }
}

/// A copy of an optional borrowed text.
fn own(s: Option<&str>) -> (r: Option<String>)
    ensures
        opt_text(r) == crate::decoder::opt_str(s),
{
    match s {
        Some(t) => Some(t.to_owned()),
        None => None,
    }
}

/// The first photo in a reply.
pub fn photo_from_json(doc: &Json) -> (r: Option<AircraftPhotoMeta>)
    ensures
        opt_photo(r) == photo_in(doc@),
{
    let first: &Json = match doc.get("photos") {
        Some(list) => match list {
            Json::List(items) => {
                proof {
                    lemma_list(*list, items@);
                }
                if items.len() > 0 {
                    &items[0]
                } else {
                    return None;
                }
            },
            _ => {
                return None;
            },
        },
        None => {
            return None;
        },
    };
    let thumbnail_large: String = match get_below(first, "thumbnail_large", "src") {
        Some(src) => src,
        None => {
            return None;
        },
    };
    let photographer: String = match first.get_str("photographer") {
        Some(name) => name.to_owned(),
        None => "Unknown Photographer".to_owned(),
    };
    Some(
        AircraftPhotoMeta {
            thumbnail_large,
            photographer,
            aircraft_type: own(first.get_str("aircraft_type")),
            airline_name: get_below(first, "airline", "name"),
        },
    )
}

/// The first photo in the text of a reply.
pub fn parse_planespotters_photo(json_str: &str) -> (r: Option<AircraftPhotoMeta>)
    ensures
        opt_photo(r) == match json_document(json_str@) {
            Some(doc) => photo_in(doc),
            None => None,
        },
{
    match parse_json(json_str) {
        Some(doc) => photo_from_json(&doc),
        None => None,
    }
}

/// What is known of an aircraft that was near. Times are milliseconds of a clock that only runs
/// forward.
#[derive(Clone, Copy, Debug, PartialEq, Eq, Structural)]
pub struct TrackState {
    pub last_notified: Option<u64>,
    pub min_dist_km: Binary64,
    pub last_seen: u64,
}

/// How long ago `then` was; nothing where it lies ahead.
pub open spec fn elapsed(now: u64, then: u64) -> int {
    if now >= then {
        now - then
    } else {
        0
    }
}

/// How long ago `then` was; nothing where it lies ahead.
fn since(now: u64, then: u64) -> (r: u64)
    ensures
        r == elapsed(now, then),
{
    if now >= then {
        now - then
    } else {
        0
    }
}

/// An aircraft is to be announced: it was not announced, or not within the last `cooldown`
/// milliseconds.
pub open spec fn is_due(
    tracks: Map<Seq<char>, TrackState>,
    cooldown: int,
    hex: Seq<char>,
    now: u64,
) -> bool {
    tracks.dom().contains(hex) && tracks[hex].last_notified is Some ==> elapsed(
        now,
        tracks[hex].last_notified->0,
    ) >= cooldown
}

/// The tracks after an aircraft was seen.
pub open spec fn tracks_seen(
    tracks: Map<Seq<char>, TrackState>,
    hex: Seq<char>,
    dist: Binary64,
    now: u64,
) -> Map<Seq<char>, TrackState> {
    tracks.insert(
        hex,
        if tracks.dom().contains(hex) {
            TrackState {
                last_notified: tracks[hex].last_notified,
                min_dist_km: if dist.order() < tracks[hex].min_dist_km.order() {
                    dist
                } else {
                    tracks[hex].min_dist_km
                },
                last_seen: now,
            }
        } else {
            TrackState { last_notified: None, min_dist_km: dist, last_seen: now }
        },
    )
}

/// The tracks after an aircraft was announced.
pub open spec fn tracks_notified(
    tracks: Map<Seq<char>, TrackState>,
    hex: Seq<char>,
    dist: Binary64,
    now: u64,
) -> Map<Seq<char>, TrackState> {
    tracks.insert(
        hex,
        TrackState { last_notified: Some(now), min_dist_km: dist, last_seen: now },
    )
}

/// The tracks of the aircraft that were seen within the last hour.
pub open spec fn tracks_fresh(tracks: Map<Seq<char>, TrackState>, now: u64) -> Map<
    Seq<char>,
    TrackState,
> {
    tracks.restrict(
        Set::new(
            |k: Seq<char>| tracks.dom().contains(k) && elapsed(now, tracks[k].last_seen) < 3_600_000,
        ),
    )
}

/// What the monitor remembers: which aircraft were announced, and what was found out about them.
#[derive(Debug)]
pub struct AdsbCache {
    cooldown: u128,
    tracks: TextMap<TrackState>,
    photos: TextMap<Option<AircraftPhotoMeta>>,
    routes: TextMap<Option<FlightRoute>>,
}

impl AdsbCache {
    /// Each table holds each key once.
    pub closed spec fn wf(self) -> bool {
        self.tracks.wf() && self.photos.wf() && self.routes.wf()
    }

    /// How long an aircraft is not announced again, in milliseconds.
    pub closed spec fn cooldown(self) -> int {
        self.cooldown as int
    }

    /// The aircraft that were near.
    pub closed spec fn tracks(self) -> Map<Seq<char>, TrackState> {
        self.tracks.map()
    }

    /// The photos asked for, by address; `None` where there is none.
    pub closed spec fn photos(self) -> Map<Seq<char>, Option<AircraftPhotoMeta>> {
        self.photos.map()
    }

    /// The routes asked for, by call sign; `None` where there is none.
    pub closed spec fn routes(self) -> Map<Seq<char>, Option<FlightRoute>> {
        self.routes.map()
    }

    /// What is remembered of photos, as plain values.
    pub open spec fn known_photos(self) -> Map<Seq<char>, Option<PhotoText>> {
        self.photos().map_values(|p: Option<AircraftPhotoMeta>| opt_photo(p))
    }

    /// What is remembered of routes, as plain values.
    pub open spec fn known_routes(self) -> Map<Seq<char>, Option<RouteText>> {
        self.routes().map_values(|r: Option<FlightRoute>| opt_route(r))
    }

    /// An empty memory.
    pub fn new(cooldown_minutes: u64) -> (r: Self)
        requires
            cooldown_minutes * 60 <= u64::MAX,
        ensures
            r.wf(),
            r.cooldown() == cooldown_minutes * 60_000,
            r.tracks() == Map::<Seq<char>, TrackState>::empty(),
            r.photos() == Map::<Seq<char>, Option<AircraftPhotoMeta>>::empty(),
            r.routes() == Map::<Seq<char>, Option<FlightRoute>>::empty(),
    {
        AdsbCache {
            cooldown: cooldown_minutes as u128 * 60_000,
            tracks: TextMap::new(),
            photos: TextMap::new(),
            routes: TextMap::new(),
        }
    }

    /// Whether an aircraft that is seen at this distance is to be announced.
    pub fn should_notify(&mut self, hex: &str, dist_km: Binary64, now: u64) -> (r: bool)
        requires
            old(self).wf(),
        ensures
            final(self).wf(),
            r == is_due(old(self).tracks(), old(self).cooldown(), hex@, now),
            final(self).tracks() == tracks_seen(old(self).tracks(), hex@, dist_km, now),
            final(self).cooldown() == old(self).cooldown(),
            final(self).photos() == old(self).photos(),
            final(self).routes() == old(self).routes(),
    {
        let (state, due): (TrackState, bool) = match self.tracks.get(hex) {
            Some(known) => {
                let due: bool = match known.last_notified {
                    Some(last) => since(now, last) as u128 >= self.cooldown,
                    None => true,
                };
                (
                    TrackState {
                        last_notified: known.last_notified,
                        min_dist_km: if dist_km.order() < known.min_dist_km.order() {
                            dist_km
                        } else {
                            known.min_dist_km
                        },
                        last_seen: now,
                    },
                    due,
                )
            },
            None => (
                TrackState { last_notified: None, min_dist_km: dist_km, last_seen: now },
                true,
            ),
        };
        self.tracks.insert(hex, state);
        due
    }

    /// Notes that an aircraft was announced.
    pub fn mark_notified(&mut self, hex: &str, dist_km: Binary64, now: u64)
        requires
            old(self).wf(),
        ensures
            final(self).wf(),
            final(self).tracks() == tracks_notified(old(self).tracks(), hex@, dist_km, now),
            final(self).cooldown() == old(self).cooldown(),
            final(self).photos() == old(self).photos(),
            final(self).routes() == old(self).routes(),
    {
        self.tracks.insert(
            hex,
            TrackState { last_notified: Some(now), min_dist_km: dist_km, last_seen: now },
        );
    }

    /// What was found out about the photo of an aircraft; `None` where it was not asked for.
    pub fn get_photo(&self, hex: &str) -> (r: Option<&Option<AircraftPhotoMeta>>)
        requires
            self.wf(),
        ensures
            match r {
                Some(p) => self.photos().dom().contains(hex@) && self.photos()[hex@] == *p,
                None => !self.photos().dom().contains(hex@),
            },
    {
        self.photos.get(hex)
    }

    /// Notes what was found out about the photo of an aircraft.
    pub fn set_photo(&mut self, hex: &str, photo: Option<AircraftPhotoMeta>)
        requires
            old(self).wf(),
        ensures
            final(self).wf(),
            final(self).photos() == old(self).photos().insert(hex@, photo),
            final(self).cooldown() == old(self).cooldown(),
            final(self).tracks() == old(self).tracks(),
            final(self).routes() == old(self).routes(),
    {
        self.photos.insert(hex, photo);
    }

    /// What was found out about the route of a flight; `None` where it was not asked for.
    pub fn get_route(&self, callsign: &str) -> (r: Option<&Option<FlightRoute>>)
        requires
            self.wf(),
        ensures
            match r {
                Some(x) => self.routes().dom().contains(callsign@) && self.routes()[callsign@]
                    == *x,
                None => !self.routes().dom().contains(callsign@),
            },
    {
        self.routes.get(callsign)
    }

    /// Notes what was found out about the route of a flight.
    pub fn set_route(&mut self, callsign: &str, route: Option<FlightRoute>)
        requires
            old(self).wf(),
        ensures
            final(self).wf(),
            final(self).routes() == old(self).routes().insert(callsign@, route),
            final(self).cooldown() == old(self).cooldown(),
            final(self).tracks() == old(self).tracks(),
            final(self).photos() == old(self).photos(),
    {
        self.routes.insert(callsign, route);
    }

    /// Forgets the aircraft that were not seen for an hour.
    pub fn cleanup_stale(&mut self, now: u64)
        requires
            old(self).wf(),
        ensures
            final(self).wf(),
            final(self).tracks() == tracks_fresh(old(self).tracks(), now),
            final(self).cooldown() == old(self).cooldown(),
            final(self).photos() == old(self).photos(),
            final(self).routes() == old(self).routes(),
    {
        let ghost before = self.tracks.map();
        let mut i: usize = 0;
        while i < self.tracks.len()
            invariant
                self.tracks.wf(),
                self.photos == old(self).photos,
                self.routes == old(self).routes,
                self.cooldown == old(self).cooldown,
                i <= self.tracks.entries().len(),
                self.tracks.map().submap_of(before),
                forall|j: int|
                    0 <= j < i ==> elapsed(
                        now,
                        (#[trigger] self.tracks.entries()[j]).1.last_seen,
                    ) < 3_600_000,
                forall|k: Seq<char>| #[trigger]
                    before.dom().contains(k) && elapsed(now, before[k].last_seen) < 3_600_000
                        ==> self.tracks.map().dom().contains(k),
            decreases self.tracks.entries().len() - i,
        {
            let ghost entries = self.tracks.entries();
            proof {
                self.tracks.lemma_entries();
            }
            if since(now, self.tracks.value_at(i).last_seen) >= 3_600_000 {
                self.tracks.remove_at(i);
                assert(forall|j: int|
                    0 <= j < i ==> (#[trigger] self.tracks.entries()[j]) == entries[j]);
            } else {
                i = i + 1;
            }
        }
        proof {
            self.tracks.lemma_entries();
            let after = self.tracks.map();
            assert forall|k: Seq<char>| #[trigger] after.dom().contains(k) implies elapsed(
                now,
                before[k].last_seen,
            ) < 3_600_000 by {
                let j = choose|j: int| crate::textmap::has_key_at(self.tracks.entries(), k, j);
                assert(crate::textmap::has_key_at(self.tracks.entries(), k, j));
                assert(after[self.tracks.entries()[j].0@] == self.tracks.entries()[j].1);
                assert(before.dom().contains(k) && after[k] == before[k]);
            }
            assert(after =~= tracks_fresh(before, now));
        }
    }
}

/// An aircraft that was announced is not announced again before the cooldown is over, and is due
/// again when it is.
pub proof fn law_cooldown(
    tracks: Map<Seq<char>, TrackState>,
    cooldown: int,
    hex: Seq<char>,
    dist: Binary64,
    then: u64,
    now: u64,
)
    ensures
        is_due(tracks_notified(tracks, hex, dist, then), cooldown, hex, now) <==> elapsed(
            now,
            then,
        ) >= cooldown,
{
}

/// An aircraft that was never announced is due, and being seen does not change whether it is.
pub proof fn law_seen_is_not_announced(
    tracks: Map<Seq<char>, TrackState>,
    cooldown: int,
    hex: Seq<char>,
    dist: Binary64,
    then: u64,
    now: u64,
)
    ensures
        !tracks.dom().contains(hex) ==> is_due(tracks, cooldown, hex, now),
        is_due(tracks_seen(tracks, hex, dist, then), cooldown, hex, now) == is_due(
            tracks,
            cooldown,
            hex,
            now,
        ),
{
}

/// Announcing one aircraft changes nothing for another.
pub proof fn law_aircraft_are_independent(
    tracks: Map<Seq<char>, TrackState>,
    cooldown: int,
    hex: Seq<char>,
    other: Seq<char>,
    dist: Binary64,
    then: u64,
    now: u64,
)
    requires
        hex != other,
    ensures
        is_due(tracks_notified(tracks, hex, dist, then), cooldown, other, now) == is_due(
            tracks,
            cooldown,
            other,
            now,
        ),
        is_due(tracks_seen(tracks, hex, dist, then), cooldown, other, now) == is_due(
            tracks,
            cooldown,
            other,
            now,
        ),
{
}

/// Forgetting lost aircraft changes nothing for one that was seen within the hour.
pub proof fn law_cleanup_keeps_recent(
    tracks: Map<Seq<char>, TrackState>,
    cooldown: int,
    hex: Seq<char>,
    now: u64,
    later: u64,
)
    requires
        tracks.dom().contains(hex),
        elapsed(now, tracks[hex].last_seen) < 3_600_000,
    ensures
        is_due(tracks_fresh(tracks, now), cooldown, hex, later) == is_due(
            tracks,
            cooldown,
            hex,
            later,
        ),
{
}

/// The aircraft is within the heights and the distance that are watched.
pub open spec fn is_near(ac: AircraftRecord, dist: Binary64, config: AdsbConfig) -> bool {
    &&& ac.lat is Some
    &&& ac.lon is Some
    &&& ac.altitude() is Some
    &&& config.min_altitude_m.order() <= ac.altitude()->0.order() <= config.max_altitude_m.order()
    &&& dist.order() <= config.max_distance_km.order()
}

/// Decides whether an aircraft is to be announced, and notes it where it is. `dist_km` is its
/// distance, for an aircraft that reports its position. Returns its altitude in metres.
pub fn check_approach(
    cache: &mut AdsbCache,
    ac: &AircraftRecord,
    dist_km: Binary64,
    config: &AdsbConfig,
    now: u64,
) -> (r: Option<Binary64>)
    requires
        old(cache).wf(),
    ensures
        final(cache).wf(),
        r == if is_near(*ac, dist_km, *config) && is_due(
            old(cache).tracks(),
            old(cache).cooldown(),
            ac.hex@,
            now,
        ) {
            ac.altitude()
        } else {
            None
        },
        final(cache).tracks() == if !is_near(*ac, dist_km, *config) {
            old(cache).tracks()
        } else if r is Some {
            tracks_notified(old(cache).tracks(), ac.hex@, dist_km, now)
        } else {
            tracks_seen(old(cache).tracks(), ac.hex@, dist_km, now)
        },
        final(cache).cooldown() == old(cache).cooldown(),
        final(cache).photos() == old(cache).photos(),
        final(cache).routes() == old(cache).routes(),
{
    if !ac.has_position() {
        return None;
    }
    let altitude: Binary64 = match ac.altitude_m() {
        Some(a) => a,
        None => {
            return None;
        },
    };
    if altitude.order() < config.min_altitude_m.order() || altitude.order()
        > config.max_altitude_m.order() {
        return None;
    }
    if dist_km.order() > config.max_distance_km.order() {
        return None;
    }
    let due: bool = cache.should_notify(ac.hex.as_str(), dist_km, now);
    if !due {
        return None;
    }
    cache.mark_notified(ac.hex.as_str(), dist_km, now);
    assert(cache.tracks() =~= tracks_notified(old(cache).tracks(), ac.hex@, dist_km, now));
    Some(altitude)
}

/// The address `base` with the path `path`, where `base` is an absolute URL.
pub uninterp spec fn url_with_path(base: Seq<char>, path: Seq<char>) -> Option<Seq<char>>;

/// The address `base` with another path.
///
/// Calls `reqwest::Url::parse`, `set_path` and the `Display` of the result. What comes out is a
/// function of the two texts, named by `url_with_path`; there is none where `base` does not parse.
/// A text so long that its encoded form, at twelve bytes to a character, could pass 4 GiB is left
/// out: `set_path` does not take it.
#[verifier::external_body]
fn replace_path(base: &str, path: &str) -> (r: Option<String>)
    requires
        base@.len() < 0x1500_0000,
        path@.len() < 0x1_0000,
    ensures
        opt_text(r) == url_with_path(base@, path@),
{
    match reqwest::Url::parse(base) {
        Ok(mut url) => {
            url.set_path(path);
            Some(url.to_string())
        },
        Err(_) => None,
    }
}

/// `s` with `x` at its end, unless it is there.
pub open spec fn push_new(s: Seq<Seq<char>>, x: Seq<char>) -> Seq<Seq<char>> {
    if s.contains(x) {
        s
    } else {
        s.push(x)
    }
}

/// `s` with each of `found` that is there and new.
pub open spec fn push_all_new(s: Seq<Seq<char>>, found: Seq<Option<Seq<char>>>) -> Seq<Seq<char>>
    decreases found.len(),
{
    if found.len() == 0 {
        s
    } else {
        let front = push_all_new(s, found.drop_last());
        match found.last() {
            Some(x) => push_new(front, x),
            None => front,
        }
    }
}

/// The paths under which receivers commonly serve their report.
pub open spec fn common_paths() -> Seq<Seq<char>> {
    seq![
        "/data/aircraft.json"@,
        "/tar1090/data/aircraft.json"@,
        "/aircraft.json"@,
        "/run/readsb/aircraft.json"@,
    ]
}

/// The addresses to try: the given one, then it with each of the common paths.
pub open spec fn candidate_urls(base: Seq<char>) -> Seq<Seq<char>> {
    push_all_new(
        seq![base],
        Seq::new(4, |i: int| url_with_path(base, common_paths()[i])),
    )
}

/// Whether a text is in a list.
fn is_listed(v: &Vec<String>, s: &str) -> (r: bool)
    ensures
        r == texts(v@).contains(s@),
{
    let mut i: usize = 0;
    while i < v.len()
        invariant
            i <= v@.len(),
            forall|j: int| 0 <= j < i ==> (#[trigger] texts(v@)[j]) != s@,
        decreases v@.len() - i,
    {
        if same(v[i].as_str(), s) {
            assert(texts(v@)[i as int] == s@);
            return true;
        }
        i = i + 1;
    }
    false
}

/// The addresses in `urls` with each of `found` that is there and new.
pub fn merge_candidates(base: &str, found: &Vec<Option<String>>) -> (r: Vec<String>)
    ensures
        texts(r@) == push_all_new(seq![base@], crate::tle::reply_texts(found@)),
{
    let mut r: Vec<String> = Vec::new();
    push_text(&mut r, base);
    let ghost all = crate::tle::reply_texts(found@);
    let mut i: usize = 0;
    assert(texts(r@) =~= seq![base@]);
    assert(all.take(0) =~= Seq::empty());
    while i < found.len()
        invariant
            all == crate::tle::reply_texts(found@),
            i <= found@.len(),
            texts(r@) == push_all_new(seq![base@], all.take(i as int)),
        decreases found@.len() - i,
    {
        assert(all.take(i + 1).drop_last() =~= all.take(i as int));
        assert(all.take(i + 1).last() == opt_text(found@[i as int]));
        if let Some(url) = &found[i] {
            if !is_listed(&r, url.as_str()) {
                push_text(&mut r, url.as_str());
            }
        }
        i = i + 1;
    }
    assert(all.take(i as int) =~= all);
    r
}

/// The addresses to try for the report of a receiver.
pub fn generate_candidate_data_urls(base_url: &str) -> (r: Vec<String>)
    requires
        base_url@.len() < 0x1500_0000,
    ensures
        texts(r@) == candidate_urls(base_url@),
{
    proof {
        reveal_strlit("/data/aircraft.json");
        reveal_strlit("/tar1090/data/aircraft.json");
        reveal_strlit("/aircraft.json");
        reveal_strlit("/run/readsb/aircraft.json");
    }
    let mut found: Vec<Option<String>> = Vec::new();
    found.push(replace_path(base_url, "/data/aircraft.json"));
    found.push(replace_path(base_url, "/tar1090/data/aircraft.json"));
    found.push(replace_path(base_url, "/aircraft.json"));
    found.push(replace_path(base_url, "/run/readsb/aircraft.json"));
    assert(crate::tle::reply_texts(found@) =~= Seq::new(
        4,
        |i: int| url_with_path(base_url@, common_paths()[i]),
    ));
    merge_candidates(base_url, &found)
}

/// The given address is tried first, and no address twice.
pub proof fn law_candidates_are_distinct(base: Seq<char>, found: Seq<Option<Seq<char>>>)
    ensures
        push_all_new(seq![base], found).len() > 0,
        push_all_new(seq![base], found)[0] == base,
        push_all_new(seq![base], found).no_duplicates(),
    decreases found.len(),
{
    if found.len() > 0 {
        law_candidates_are_distinct(base, found.drop_last());
    }
}

/// Which address serves the report.
#[derive(Debug)]
pub struct EndpointSearch {
    pub candidates: Vec<String>,
    pub active: Option<String>,
}

/// The addresses to try in a round: the one that served last, then the others.
pub open spec fn round_of(candidates: Seq<Seq<char>>, active: Option<Seq<char>>) -> Seq<Seq<char>> {
    match active {
        Some(url) => seq![url] + candidates.filter(|u: Seq<char>| u != url),
        None => candidates,
    }
}

impl EndpointSearch {
    /// A search among the addresses that come from `data_url`.
    pub fn new(data_url: &str) -> (r: Self)
        requires
            data_url@.len() < 0x1500_0000,
        ensures
            texts(r.candidates@) == candidate_urls(data_url@),
            r.active is None,
    {
        EndpointSearch { candidates: generate_candidate_data_urls(data_url), active: None }
    }

    /// The addresses to try in this round, in order.
    pub fn urls_to_try(&self) -> (r: Vec<String>)
        ensures
            texts(r@) == round_of(texts(self.candidates@), opt_text(self.active)),
    {
        let mut r: Vec<String> = Vec::new();
        let ghost all = texts(self.candidates@);
        let n: usize = self.candidates.len();
        let mut i: usize = 0;
        match &self.active {
            Some(url) => {
                let ghost keep = |u: Seq<char>| u != url@;
                push_text(&mut r, url.as_str());
                proof {
                    reveal(Seq::filter);
                    assert(texts(r@) =~= seq![url@] + all.take(0).filter(keep));
                }
                while i < n
                    invariant
                        all == texts(self.candidates@),
                        n == all.len(),
                        keep == (|u: Seq<char>| u != url@),
                        i <= n,
                        texts(r@) == seq![url@] + all.take(i as int).filter(keep),
                    decreases n - i,
                {
                    let u: &str = self.candidates[i].as_str();
                    let ghost kept = all.take(i as int).filter(keep);
                    proof {
                        crate::text::lemma_filter_push(all.take(i as int), u@, keep);
                        assert(all.take(i + 1) =~= all.take(i as int).push(u@));
                    }
                    if !same(u, url.as_str()) {
                        push_text(&mut r, u);
                        assert(texts(r@) =~= seq![url@] + kept.push(u@));
                    }
                    i = i + 1;
                }
                assert(all.take(n as int) =~= all);
                let ghost first = opt_text(self.active)->0;
                assert(keep =~= (|u: Seq<char>| u != first));
            },
            None => {
                assert(texts(r@) =~= all.take(0));
                while i < n
                    invariant
                        all == texts(self.candidates@),
                        n == all.len(),
                        i <= n,
                        texts(r@) == all.take(i as int),
                    decreases n - i,
                {
                    push_text(&mut r, self.candidates[i].as_str());
                    i = i + 1;
                    assert(texts(r@) =~= all.take(i as int));
                }
                assert(all.take(n as int) =~= all);
            },
        }
        r
    }

    /// Notes which address served the report in this round; `None` where none did.
    pub fn conclude(&mut self, served: Option<String>)
        ensures
            final(self).active == served,
            final(self).candidates == old(self).candidates,
    {
        self.active = served;
    }
}

/// A round tries every candidate, and the address that served last before all others.
pub proof fn law_round_tries_all(candidates: Seq<Seq<char>>, active: Option<Seq<char>>)
    ensures
        forall|u: Seq<char>| #[trigger]
            candidates.contains(u) ==> round_of(candidates, active).contains(u),
        active is Some ==> round_of(candidates, active)[0] == active->0,
{
    assert forall|u: Seq<char>| #[trigger] candidates.contains(u) implies round_of(
        candidates,
        active,
    ).contains(u) by {
        if let Some(url) = active {
            let keep = |x: Seq<char>| x != url;
            let rest = candidates.filter(keep);
            let r = seq![url] + rest;
            if u == url {
                assert(r[0] == u);
            } else {
                let i = choose|i: int| 0 <= i < candidates.len() && candidates[i] == u;
                candidates.lemma_filter_contains(keep, i);
                let j = choose|j: int| 0 <= j < rest.len() && rest[j] == u;
                assert(r[j + 1] == u);
            }
        }
    }
}

/// A copy of a route.
fn copy_route(r: &Option<FlightRoute>) -> (c: Option<FlightRoute>)
    ensures
        opt_route(c) == opt_route(*r),
{
    match r {
        Some(x) => Some(
            FlightRoute {
                callsign: x.callsign.as_str().to_owned(),
                origin_iata: copy_opt(&x.origin_iata),
                origin_name: copy_opt(&x.origin_name),
                destination_iata: copy_opt(&x.destination_iata),
                destination_name: copy_opt(&x.destination_name),
            },
        ),
        None => None,
    }
}

/// A copy of a photo.
fn copy_photo(p: &Option<AircraftPhotoMeta>) -> (c: Option<AircraftPhotoMeta>)
    ensures
        opt_photo(c) == opt_photo(*p),
{
    match p {
        Some(x) => Some(
            AircraftPhotoMeta {
                thumbnail_large: x.thumbnail_large.as_str().to_owned(),
                photographer: x.photographer.as_str().to_owned(),
                aircraft_type: copy_opt(&x.aircraft_type),
                airline_name: copy_opt(&x.airline_name),
            },
        ),
        None => None,
    }
}

/// How the route of a flight is found.
#[derive(Debug)]
pub enum RouteLookup {
    /// Routes are not wanted, or this one is known.
    Known(Option<FlightRoute>),
    /// It is to be asked for at this address.
    Ask(String),
}

/// How the photo of an aircraft is found.
#[derive(Debug)]
pub enum PhotoLookup {
    /// Photos are not wanted, or this one is known.
    Known(Option<AircraftPhotoMeta>),
    /// It is to be asked for at this address.
    Ask(String),
}

/// Where the route of a flight is asked for.
pub fn route_query(callsign: &str) -> (r: String)
    ensures
        r@ == "https://hexdb.io/api/v1/route/icao/"@ + callsign@,
{
    let mut r: String = "https://hexdb.io/api/v1/route/icao/".to_owned();
    r.append(callsign);
    r
}

/// Where the photo of an aircraft is asked for.
pub fn photo_query(hex: &str) -> (r: String)
    ensures
        r@ == "https://api.planespotters.net/pub/photos/hex/"@ + hex@,
{
    let mut r: String = "https://api.planespotters.net/pub/photos/hex/".to_owned();
    r.append(hex);
    r
}

/// The document in a reply: the text of a successful one, where it is JSON.
pub open spec fn reply_document(success: bool, body: Option<Seq<char>>) -> Option<JsonText> {
    if success && body is Some {
        json_document(body->0)
    } else {
        None
    }
}

/// The route in the reply to the question for it.
pub fn fetch_flight_route(callsign: &str, success: bool, body: &Option<String>) -> (r: Option<
    FlightRoute,
>)
    ensures
        opt_route(r) == match reply_document(success, opt_text(*body)) {
            Some(doc) => route_in(callsign@, doc),
            None => None,
        },
{
    if !success {
        return None;
    }
    match body {
        Some(text) => parse_hexdb_route(callsign, text.as_str()),
        None => None,
    }
}

/// The photo in the reply to the question for it.
pub fn fetch_aircraft_photo(success: bool, body: &Option<String>) -> (r: Option<AircraftPhotoMeta>)
    ensures
        opt_photo(r) == match reply_document(success, opt_text(*body)) {
            Some(doc) => photo_in(doc),
            None => None,
        },
{
    if !success {
        return None;
    }
    match body {
        Some(text) => parse_planespotters_photo(text.as_str()),
        None => None,
    }
}

/// How the route of a flight is found: what is remembered comes first.
pub fn plan_route(cache: &AdsbCache, config: &AdsbConfig, callsign: &str) -> (r: RouteLookup)
    requires
        cache.wf(),
    ensures
        match r {
            RouteLookup::Known(x) => opt_route(x) == if !config.fetch_routes {
                None
            } else {
                opt_route(cache.routes()[callsign@])
            },
            RouteLookup::Ask(url) => url@ == "https://hexdb.io/api/v1/route/icao/"@ + callsign@,
        },
        r is Ask == (config.fetch_routes && !cache.routes().dom().contains(callsign@)),
{
    if !config.fetch_routes {
        return RouteLookup::Known(None);
    }
    match cache.get_route(callsign) {
        Some(known) => RouteLookup::Known(copy_route(known)),
        None => RouteLookup::Ask(route_query(callsign)),
    }
}

/// How the photo of an aircraft is found: what is remembered comes first.
pub fn plan_photo(cache: &AdsbCache, config: &AdsbConfig, hex: &str) -> (r: PhotoLookup)
    requires
        cache.wf(),
    ensures
        match r {
            PhotoLookup::Known(x) => opt_photo(x) == if !config.fetch_photos {
                None
            } else {
                opt_photo(cache.photos()[hex@])
            },
            PhotoLookup::Ask(url) => url@ == "https://api.planespotters.net/pub/photos/hex/"@
                + hex@,
        },
        r is Ask == (config.fetch_photos && !cache.photos().dom().contains(hex@)),
{
    if !config.fetch_photos {
        return PhotoLookup::Known(None);
    }
    match cache.get_photo(hex) {
        Some(known) => PhotoLookup::Known(copy_photo(known)),
        None => PhotoLookup::Ask(photo_query(hex)),
    }
}

/// Remembers what was found out, as far as it was wanted.
pub fn remember(
    cache: &mut AdsbCache,
    config: &AdsbConfig,
    callsign: &str,
    hex: &str,
    route: &Option<FlightRoute>,
    photo: &Option<AircraftPhotoMeta>,
)
    requires
        old(cache).wf(),
    ensures
        final(cache).wf(),
        final(cache).cooldown() == old(cache).cooldown(),
        final(cache).tracks() == old(cache).tracks(),
        final(cache).known_routes() == if config.fetch_routes {
            old(cache).known_routes().insert(callsign@, opt_route(*route))
        } else {
            old(cache).known_routes()
        },
        final(cache).known_photos() == if config.fetch_photos {
            old(cache).known_photos().insert(hex@, opt_photo(*photo))
        } else {
            old(cache).known_photos()
        },
{
    if config.fetch_routes {
        let x: Option<FlightRoute> = copy_route(route);
        cache.set_route(callsign, x);
    }
    if config.fetch_photos {
        let x: Option<AircraftPhotoMeta> = copy_photo(photo);
        cache.set_photo(hex, x);
    }
    assert(cache.known_routes() =~= if config.fetch_routes {
        old(cache).known_routes().insert(callsign@, opt_route(*route))
    } else {
        old(cache).known_routes()
    });
    assert(cache.known_photos() =~= if config.fetch_photos {
        old(cache).known_photos().insert(hex@, opt_photo(*photo))
    } else {
        old(cache).known_photos()
    });
}

/// An alert, as plain values.
pub struct AlertText {
    pub icao_hex: Seq<char>,
    pub callsign: Seq<char>,
    pub airline: Option<Seq<char>>,
    pub aircraft_type: Option<Seq<char>>,
    pub origin: Option<Seq<char>>,
    pub destination: Option<Seq<char>>,
    pub altitude_m: Binary64,
    pub speed_kmh: Binary64,
    pub distance_km: Binary64,
    pub photo_url: Option<Seq<char>>,
    pub photographer: Option<Seq<char>>,
    pub tar1090_url: Seq<char>,
}

impl View for AircraftAlert {
    type V = AlertText;

    open spec fn view(&self) -> AlertText {
        AlertText {
            icao_hex: self.icao_hex@,
            callsign: self.callsign@,
            airline: opt_text(self.airline),
            aircraft_type: opt_text(self.aircraft_type),
            origin: opt_text(self.origin),
            destination: opt_text(self.destination),
            altitude_m: self.altitude_m,
            speed_kmh: self.speed_kmh,
            distance_km: self.distance_km,
            photo_url: opt_text(self.photo_url),
            photographer: opt_text(self.photographer),
            tar1090_url: self.tar1090_url@,
        }
    }
}

/// An airport by name and code, as far as they are known.
pub open spec fn airport_text(name: Option<Seq<char>>, iata: Option<Seq<char>>) -> Option<
    Seq<char>,
> {
    match (name, iata) {
        (Some(n), Some(i)) => Some(n + " ("@ + i + ")"@),
        (Some(n), None) => Some(n),
        (None, Some(i)) => Some(i),
        (None, None) => None,
    }
}

/// An airport by name and code, as far as they are known.
pub fn airport(name: &Option<String>, iata: &Option<String>) -> (r: Option<String>)
    ensures
        opt_text(r) == airport_text(opt_text(*name), opt_text(*iata)),
{
    match name {
        Some(n) => match iata {
            Some(i) => {
                let mut t: String = n.as_str().to_owned();
                t.append(" (");
                t.append(i.as_str());
                t.append(")");
                Some(t)
            },
            None => Some(n.as_str().to_owned()),
        },
        None => copy_opt(iata),
    }
}

/// The parts of an alert that come from the photo and the route.
pub open spec fn alert_of(
    ac: AircraftRecord,
    altitude: Binary64,
    speed: Binary64,
    dist: Binary64,
    origin: Option<Seq<char>>,
    destination: Option<Seq<char>>,
    photo: Option<PhotoText>,
    tar1090_url: Seq<char>,
) -> AlertText {
    AlertText {
        icao_hex: ac.hex@,
        callsign: ac.shown_name(),
        airline: match photo {
            Some(p) => p.airline_name,
            None => None,
        },
        aircraft_type: match photo {
            Some(p) => p.aircraft_type,
            None => None,
        },
        origin,
        destination,
        altitude_m: altitude,
        speed_kmh: speed,
        distance_km: dist,
        photo_url: match photo {
            Some(p) => Some(p.thumbnail_large),
            None => None,
        },
        photographer: match photo {
            Some(p) => Some(p.photographer),
            None => None,
        },
        tar1090_url,
    }
}

/// `d`, or `fallback` where there is none.
pub open spec fn number_or(d: Option<Binary64>, fallback: Binary64) -> Binary64 {
    match d {
        Some(x) => x,
        None => fallback,
    }
}

/// The alert for an aircraft that is near.
pub open spec fn approach_alert(
    ac: AircraftRecord,
    altitude: Binary64,
    dist: Binary64,
    route: Option<RouteText>,
    photo: Option<PhotoText>,
    tar1090_url: Seq<char>,
) -> AlertText {
    alert_of(
        ac,
        altitude,
        number_or(ac.speed(), of_integer(0)),
        dist,
        match route {
            Some(r) => airport_text(r.origin_name, r.origin_iata),
            None => None,
        },
        match route {
            Some(r) => airport_text(r.destination_name, r.destination_iata),
            None => None,
        },
        photo,
        tar1090_url,
    )
}

/// The alert for trying out the announcements: airports by code alone, and usual values for what
/// is not reported.
pub open spec fn trial_alert(
    ac: AircraftRecord,
    dist: Binary64,
    route: Option<RouteText>,
    photo: Option<PhotoText>,
    tar1090_url: Seq<char>,
) -> AlertText {
    alert_of(
        ac,
        number_or(ac.altitude(), of_integer(5_000)),
        number_or(ac.speed(), of_integer(750)),
        dist,
        match route {
            Some(r) => r.origin_iata,
            None => None,
        },
        match route {
            Some(r) => r.destination_iata,
            None => None,
        },
        photo,
        tar1090_url,
    )
}

/// An alert with the given airports.
fn make_alert(
    ac: &AircraftRecord,
    altitude_m: Binary64,
    speed_kmh: Binary64,
    distance_km: Binary64,
    origin: Option<String>,
    destination: Option<String>,
    photo: &Option<AircraftPhotoMeta>,
    tar1090_url: &str,
) -> (r: AircraftAlert)
    ensures
        r@ == alert_of(
            *ac,
            altitude_m,
            speed_kmh,
            distance_km,
            opt_text(origin),
            opt_text(destination),
            opt_photo(*photo),
            tar1090_url@,
        ),
{
    let (airline, aircraft_type, photo_url, photographer): (
        Option<String>,
        Option<String>,
        Option<String>,
        Option<String>,
    ) = match photo {
        Some(p) => (
            copy_opt(&p.airline_name),
            copy_opt(&p.aircraft_type),
            Some(p.thumbnail_large.as_str().to_owned()),
            Some(p.photographer.as_str().to_owned()),
        ),
        None => (None, None, None, None),
    };
    AircraftAlert {
        icao_hex: ac.hex.as_str().to_owned(),
        callsign: ac.display_callsign(),
        airline,
        aircraft_type,
        origin,
        destination,
        altitude_m,
        speed_kmh,
        distance_km,
        photo_url,
        photographer,
        tar1090_url: tar1090_url.to_owned(),
    }
}

/// The alert for an aircraft that is near.
pub fn build_approach_alert(
    ac: &AircraftRecord,
    altitude_m: Binary64,
    distance_km: Binary64,
    route: &Option<FlightRoute>,
    photo: &Option<AircraftPhotoMeta>,
    tar1090_url: &str,
) -> (r: AircraftAlert)
    ensures
        r@ == approach_alert(
            *ac,
            altitude_m,
            distance_km,
            opt_route(*route),
            opt_photo(*photo),
            tar1090_url@,
        ),
{
    let (origin, destination): (Option<String>, Option<String>) = match route {
        Some(x) => (
            airport(&x.origin_name, &x.origin_iata),
            airport(&x.destination_name, &x.destination_iata),
        ),
        None => (None, None),
    };
    let speed: Binary64 = match ac.speed_kmh() {
        Some(v) => v,
        None => Binary64::integer(0),
    };
    make_alert(ac, altitude_m, speed, distance_km, origin, destination, photo, tar1090_url)
}

/// The alert for trying out the announcements on the nearest aircraft.
pub fn build_trial_alert(
    ac: &AircraftRecord,
    distance_km: Binary64,
    route: &Option<FlightRoute>,
    photo: &Option<AircraftPhotoMeta>,
    tar1090_url: &str,
) -> (r: AircraftAlert)
    ensures
        r@ == trial_alert(
            *ac,
            distance_km,
            opt_route(*route),
            opt_photo(*photo),
            tar1090_url@,
        ),
{
    let (origin, destination): (Option<String>, Option<String>) = match route {
        Some(x) => (copy_opt(&x.origin_iata), copy_opt(&x.destination_iata)),
        None => (None, None),
    };
    let speed: Binary64 = match ac.speed_kmh() {
        Some(v) => v,
        None => Binary64::integer(750),
    };
    let altitude: Binary64 = match ac.altitude_m() {
        Some(v) => v,
        None => Binary64::integer(5_000),
    };
    make_alert(ac, altitude, speed, distance_km, origin, destination, photo, tar1090_url)
}

/// The alert for trying out the announcements where no aircraft is in reach.
pub fn sample_alert(tar1090_url: &str) -> (r: AircraftAlert)
    ensures
        r@ == (AlertText {
            icao_hex: "86786c"@,
            callsign: "ANA247"@,
            airline: Some("全日本空輸"@),
            aircraft_type: Some("Boeing 787-8 Dreamliner"@),
            origin: Some("羽田 (HND)"@),
            destination: Some("福岡 (FUK)"@),
            altitude_m: of_integer(5_200),
            speed_kmh: of_integer(780),
            distance_km: of_ratio(34, 10),
            photo_url: Some(
                "https://cdn.planespotters.net/photo/498000/original/planespotters_498305_4a2c91b5bf_o.jpg"@,
            ),
            photographer: Some("John Doe"@),
            tar1090_url: tar1090_url@,
        }),
{
    AircraftAlert {
        icao_hex: "86786c".to_owned(),
        callsign: "ANA247".to_owned(),
        airline: Some("全日本空輸".to_owned()),
        aircraft_type: Some("Boeing 787-8 Dreamliner".to_owned()),
        origin: Some("羽田 (HND)".to_owned()),
        destination: Some("福岡 (FUK)".to_owned()),
        altitude_m: Binary64::integer(5_200),
        speed_kmh: Binary64::integer(780),
        distance_km: Binary64::ratio(34, 10),
        photo_url: Some(
            "https://cdn.planespotters.net/photo/498000/original/planespotters_498305_4a2c91b5bf_o.jpg".to_owned(),
        ),
        photographer: Some("John Doe".to_owned()),
        tar1090_url: tar1090_url.to_owned(),
    }
}

/// Entry `i` is the first of the least distances.
pub open spec fn is_closest(distances: Seq<Option<Binary64>>, i: int) -> bool {
    &&& 0 <= i < distances.len()
    &&& distances[i] is Some
    &&& forall|j: int|
        #![trigger distances[j]]
        0 <= j < distances.len() && distances[j] is Some ==> distances[i]->0.order()
            <= distances[j]->0.order() && (j < i ==> distances[i]->0.order()
            < distances[j]->0.order())
}

/// The nearest of the aircraft that report their position: `distances` holds the distance of each
/// aircraft, where it does.
pub fn closest(distances: &Vec<Option<Binary64>>) -> (r: Option<usize>)
    ensures
        match r {
            Some(i) => is_closest(distances@, i as int),
            None => forall|i: int| 0 <= i < distances@.len() ==> (#[trigger] distances@[i]) is None,
        },
{
    let mut best: Option<(usize, Binary64)> = None;
    let mut i: usize = 0;
    while i < distances.len()
        invariant
            i <= distances@.len(),
            match best {
                Some((b, d)) => b < i && distances@[b as int] == Some(d) && (forall|j: int|
                    #![trigger distances@[j]]
                    0 <= j < i && distances@[j] is Some ==> d.order() <= distances@[j]->0.order() && (
                    j < b ==> d.order() < distances@[j]->0.order())),
                None => forall|j: int| 0 <= j < i ==> (#[trigger] distances@[j]) is None,
            },
        decreases distances@.len() - i,
    {
        if let Some(d) = distances[i] {
            let nearer: bool = match best {
                Some((_, least)) => d.order() < least.order(),
                None => true,
            };
            if nearer {
                best = Some((i, d));
            }
        }
        i = i + 1;
    }
    match best {
        Some((b, _)) => Some(b),
        None => None,
    }
}

/// A height rounded to whole metres, halves away from zero.
pub open spec fn whole_metres(m: Binary64) -> int {
    rounded_away(m)
}

/// What an optional text holds, or `fallback`.
pub open spec fn text_or(t: Option<Seq<char>>, fallback: Seq<char>) -> Seq<char> {
    match t {
        Some(s) => s,
        None => fallback,
    }
}

/// What is said of an aircraft that is near.
pub open spec fn voice_text(alert: AlertText) -> Seq<char> {
    let airline = text_or(alert.airline, Seq::empty());
    let kind = text_or(alert.aircraft_type, "飛行機"@);
    let height = signed_digits(whole_metres(alert.altitude_m));
    let tail = "が、高度"@ + height + "メートルで上空を通過中なのだ！"@;
    if alert.origin is Some && alert.destination is Some {
        alert.origin->0 + "発、"@ + alert.destination->0 + "行きの"@ + airline + alert.callsign
            + "便、"@ + kind + tail
    } else if airline.len() > 0 {
        airline + "の"@ + kind + "、"@ + alert.callsign + "便"@ + tail
    } else {
        alert.callsign + "便、"@ + kind + tail
    }
}

/// A height rounded to whole metres.
fn format_whole_metres(m: Binary64) -> (r: String)
    ensures
        r@ == signed_digits(whole_metres(m)),
{
    signed_decimal(m.round_away())
}

/// What is said of an aircraft that is near.
pub fn build_voice_text(alert: &AircraftAlert) -> (r: String)
    ensures
        r@ == voice_text(alert@),
{
    let mut tail: String = "が、高度".to_owned();
    tail.append(format_whole_metres(alert.altitude_m).as_str());
    tail.append("メートルで上空を通過中なのだ！");
    let airline: String = match &alert.airline {
        Some(al) => al.as_str().to_owned(),
        None => String::new(),
    };
    let kind: String = match &alert.aircraft_type {
        Some(t) => t.as_str().to_owned(),
        None => "飛行機".to_owned(),
    };
    if let Some(orig) = &alert.origin {
        if let Some(dest) = &alert.destination {
            let mut r: String = orig.as_str().to_owned();
            r.append("発、");
            r.append(dest.as_str());
            r.append("行きの");
            r.append(airline.as_str());
            r.append(alert.callsign.as_str());
            r.append("便、");
            r.append(kind.as_str());
            r.append(tail.as_str());
            return r;
        }
    }
    if !airline.as_str().is_empty() {
        let mut r: String = airline;
        r.append("の");
        r.append(kind.as_str());
        r.append("、");
        r.append(alert.callsign.as_str());
        r.append("便");
        r.append(tail.as_str());
        r
    } else {
        let mut r: String = alert.callsign.as_str().to_owned();
        r.append("便、");
        r.append(kind.as_str());
        r.append(tail.as_str());
        r
    }
}

/// When the monitor last did what it does from time to time, in milliseconds of a clock that only
/// runs forward. `None` stands for never.
#[derive(Clone, Copy, Debug, PartialEq, Eq, Structural)]
pub struct MonitorTimers {
    pub cleanup: u64,
    pub heartbeat: u64,
    pub warning: Option<u64>,
}

impl MonitorTimers {
    /// A monitor that starts at `now`. Its first warning need not wait.
    pub fn start(now: u64) -> (r: Self)
        ensures
            r == (MonitorTimers { cleanup: now, heartbeat: now, warning: None }),
    {
        MonitorTimers { cleanup: now, heartbeat: now, warning: None }
    }

    /// Whether the memory is to be cleaned up: more than ten minutes after the last time.
    pub fn cleanup_due(&mut self, now: u64) -> (r: bool)
        ensures
            r == (elapsed(now, old(self).cleanup) > 600_000),
            *final(self) == if r {
                MonitorTimers { cleanup: now, ..*old(self) }
            } else {
                *old(self)
            },
    {
        if since(now, self.cleanup) > 600_000 {
            self.cleanup = now;
            true
        } else {
            false
        }
    }

    /// Whether the state of the radar is to be reported: half a minute after the last time.
    pub fn heartbeat_due(&mut self, now: u64) -> (r: bool)
        ensures
            r == (elapsed(now, old(self).heartbeat) >= 30_000),
            *final(self) == if r {
                MonitorTimers { heartbeat: now, ..*old(self) }
            } else {
                *old(self)
            },
    {
        if since(now, self.heartbeat) >= 30_000 {
            self.heartbeat = now;
            true
        } else {
            false
        }
    }

    /// Whether a warning is to be given that no receiver answers: half a minute after the last.
    pub fn warning_due(&mut self, now: u64) -> (r: bool)
        ensures
            r == (old(self).warning matches Some(then) ==> elapsed(now, then) >= 30_000),
            *final(self) == if r {
                MonitorTimers { warning: Some(now), ..*old(self) }
            } else {
                *old(self)
            },
    {
        let due: bool = match self.warning {
            Some(then) => since(now, then) >= 30_000,
            None => true,
        };
        if due {
            self.warning = Some(now);
        }
        due
    }
}

/// How long the monitor rests between two rounds, in seconds.
pub fn poll_interval_secs(config: &AdsbConfig) -> (r: u64)
    ensures
        r == if config.poll_interval_secs < 1 {
            1
        } else {
            config.poll_interval_secs
        },
{
    if config.poll_interval_secs < 1 {
        1
    } else {
        config.poll_interval_secs
    }
}

/// The lines that show an alert.
pub open spec fn alert_lines(alert: AlertText) -> Seq<Seq<char>> {
    seq![
        "  便名:       "@ + alert.callsign,
        "  航空会社:   "@ + text_or(alert.airline, "不明"@),
        "  機種:       "@ + text_or(alert.aircraft_type, "不明"@),
        "  ルート:     "@ + text_or(alert.origin, "不明"@) + " ➜ "@ + text_or(
            alert.destination,
            "不明"@,
        ),
        "  高度:       "@ + fixed_text(alert.altitude_m, 0) + " m"@,
        "  最接近距離: "@ + fixed_text(alert.distance_km, 1) + " km"@,
        "  実機写真:   "@ + text_or(alert.photo_url, "なし"@),
    ]
}

/// An optional text, or `fallback`.
fn str_or<'a>(t: &'a Option<String>, fallback: &'a str) -> (r: &'a str)
    ensures
        r@ == text_or(opt_text(*t), fallback@),
{
    match t {
        Some(s) => s.as_str(),
        None => fallback,
    }
}

/// The lines that show an alert.
pub fn describe_alert(alert: &AircraftAlert) -> (r: Vec<String>)
    ensures
        texts(r@) == alert_lines(alert@),
{
    let mut r: Vec<String> = Vec::new();
    let mut line: String = "  便名:       ".to_owned();
    line.append(alert.callsign.as_str());
    push_text(&mut r, line.as_str());
    let mut line: String = "  航空会社:   ".to_owned();
    line.append(str_or(&alert.airline, "不明"));
    push_text(&mut r, line.as_str());
    let mut line: String = "  機種:       ".to_owned();
    line.append(str_or(&alert.aircraft_type, "不明"));
    push_text(&mut r, line.as_str());
    let mut line: String = "  ルート:     ".to_owned();
    line.append(str_or(&alert.origin, "不明"));
    line.append(" ➜ ");
    line.append(str_or(&alert.destination, "不明"));
    push_text(&mut r, line.as_str());
    let mut line: String = "  高度:       ".to_owned();
    line.append(alert.altitude_m.fixed(0).as_str());
    line.append(" m");
    push_text(&mut r, line.as_str());
    let mut line: String = "  最接近距離: ".to_owned();
    line.append(alert.distance_km.fixed(1).as_str());
    line.append(" km");
    push_text(&mut r, line.as_str());
    let mut line: String = "  実機写真:   ".to_owned();
    line.append(str_or(&alert.photo_url, "なし"));
    push_text(&mut r, line.as_str());
    assert(texts(r@) =~= alert_lines(alert@));
    r
}

/// An aircraft is near where it reports position and height, the height is within the limits and
/// the distance within reach; one that fails any of these is not.
pub proof fn law_near_is_within_the_limits(ac: AircraftRecord, dist: Binary64, config: AdsbConfig)
    ensures
        is_near(ac, dist, config) <==> ac.lat is Some && ac.lon is Some && ac.altitude() is Some
            && ac.altitude()->0.order() >= config.min_altitude_m.order()
            && ac.altitude()->0.order() <= config.max_altitude_m.order() && dist.order()
            <= config.max_distance_km.order(),
{
}

/// An aircraft on the ground has the height zero, and is announced only where heights from zero on
/// are watched.
pub proof fn law_aircraft_on_the_ground_are_not_near(
    ac: AircraftRecord,
    dist: Binary64,
    config: AdsbConfig,
)
    requires
        ac.alt_baro is Some,
        ac.alt_baro->0@ == JsonText::Text("ground"@),
    ensures
        ac.altitude() == Some(of_integer(0)),
        config.min_altitude_m.order() > 0 ==> !is_near(ac, dist, config),
{
    crate::binary64::lemma_zero();
}

/// A height is read as feet: whatever is no number and not the word for the ground has none, and
/// the product with the length of a foot is rounded once.
pub proof fn law_heights_are_read_as_feet(n: Seq<char>, feet: Binary64, s: Seq<char>, b: bool)
    requires
        feet.size < INFINITY,
        ascii_lower(s) != ascii_lower("ground"@),
    ensures
        altitude_in(JsonText::Number(n, Some(bits_of(feet)))) == Some(feet_to_metres(feet)),
        altitude_in(JsonText::Text(s)) is None,
        altitude_in(JsonText::Null) is None,
        altitude_in(JsonText::Bool(b)) is None,
        feet_to_metres(feet).negative == feet.negative,
        feet_to_metres(feet).size < INFINITY ==> forall|k: nat|
            off(
                units(feet.size as nat) * units(of_ratio(3_048, 10_000).size as nat),
                two(1074),
                feet_to_metres(feet).size as nat,
            ) <= #[trigger] off(
                units(feet.size as nat) * units(of_ratio(3_048, 10_000).size as nat),
                two(1074),
                k,
            ),
{
    let n = units(feet.size as nat) * units(of_ratio(3_048, 10_000).size as nat);
    lemma_bits(feet);
    lemma_two_positive(1074);
    if feet_to_metres(feet).size < INFINITY {
        assert forall|k: nat|
            off(n, two(1074), feet_to_metres(feet).size as nat) <= #[trigger] off(
                n,
                two(1074),
                k,
            ) by {
            law_no_number_is_nearer(n, two(1074), k);
        }
    }
}

/// An aircraft is due again when the cooldown is over, to the millisecond, and not before.
pub proof fn law_cooldown_lasts_its_time(
    tracks: Map<Seq<char>, TrackState>,
    cooldown: int,
    hex: Seq<char>,
    dist: Binary64,
    then: u64,
    now: u64,
)
    requires
        then <= now,
        cooldown > 0,
    ensures
        is_due(tracks_notified(tracks, hex, dist, then), cooldown, hex, now) <==> now - then
            >= cooldown,
        !is_due(tracks_notified(tracks, hex, dist, now), cooldown, hex, then),
{
}

/// What is remembered of an aircraft: when it was last announced, its least distance since then,
/// and when it was last seen.
pub proof fn law_tracks_remember(
    tracks: Map<Seq<char>, TrackState>,
    hex: Seq<char>,
    dist: Binary64,
    now: u64,
)
    ensures
        tracks_notified(tracks, hex, dist, now)[hex].last_notified == Some(now),
        tracks_notified(tracks, hex, dist, now)[hex].last_seen == now,
        tracks_notified(tracks, hex, dist, now)[hex].min_dist_km == dist,
        tracks_seen(tracks, hex, dist, now)[hex].last_seen == now,
        tracks.dom().contains(hex) ==> {
            let after = tracks_seen(tracks, hex, dist, now)[hex];
            &&& after.last_notified == tracks[hex].last_notified
            &&& after.min_dist_km.order() <= dist.order()
            &&& after.min_dist_km.order() <= tracks[hex].min_dist_km.order()
            &&& after.min_dist_km == dist || after.min_dist_km == tracks[hex].min_dist_km
        },
        !tracks.dom().contains(hex) ==> tracks_seen(tracks, hex, dist, now)[hex].last_notified
            is None && tracks_seen(tracks, hex, dist, now)[hex].min_dist_km == dist,
        tracks_seen(tracks, hex, dist, now).dom() == tracks.dom().insert(hex),
        tracks_notified(tracks, hex, dist, now).dom() == tracks.dom().insert(hex),
{
}

/// An aircraft that was not seen for an hour is forgotten, and no other; what is kept is kept as it
/// is.
pub proof fn law_lost_aircraft_are_forgotten(
    tracks: Map<Seq<char>, TrackState>,
    hex: Seq<char>,
    now: u64,
)
    requires
        tracks.dom().contains(hex),
        tracks[hex].last_seen <= now,
    ensures
        tracks_fresh(tracks, now).dom().contains(hex) <==> now - tracks[hex].last_seen < 3_600_000,
        tracks_fresh(tracks, now).dom().contains(hex) ==> tracks_fresh(tracks, now)[hex]
            == tracks[hex],
        tracks_fresh(tracks, now).dom().subset_of(tracks.dom()),
{
}

/// The reply on a route is read as it is written: where the flight comes from as its origin, where
/// it goes to as its destination, and one airport code is enough.
pub proof fn law_routes_are_read_as_written(callsign: Seq<char>, doc: JsonText)
    ensures
        ({
            let from = text_below(doc, "origin"@, "iata"@);
            let to = text_below(doc, "destination"@, "iata"@);
            &&& route_in(callsign, doc) is Some <==> from is Some || to is Some
            &&& route_in(callsign, doc) matches Some(r) ==> {
                &&& r.callsign == callsign
                &&& r.origin_iata == from
                &&& r.destination_iata == to
                &&& r.origin_name == text_below(doc, "origin"@, "name"@)
                &&& r.destination_name == text_below(doc, "destination"@, "name"@)
            }
        }),
{
}

/// The photo in a reply is the first, with its own address, and who took it where that is said.
pub proof fn law_first_photo_is_taken(photos: Seq<JsonText>, doc: JsonText)
    requires
        photos.len() > 0,
        doc.member("photos"@) == Some(JsonText::List(photos)),
    ensures
        photo_in(doc) is Some <==> text_below(photos[0], "thumbnail_large"@, "src"@) is Some,
        photo_in(doc) matches Some(p) ==> {
            &&& Some(p.thumbnail_large) == text_below(photos[0], "thumbnail_large"@, "src"@)
            &&& photos[0].member_text("photographer"@) matches Some(who) ==> p.photographer == who
            &&& p.aircraft_type == photos[0].member_text("aircraft_type"@)
            &&& p.airline_name == text_below(photos[0], "airline"@, "name"@)
        },
{
}

/// An alert tells of its aircraft: address, name, measurements and route are its own, with the
/// origin as origin and the destination as destination, and the photo is the one that was found.
pub proof fn law_alerts_tell_of_their_aircraft(
    ac: AircraftRecord,
    altitude: Binary64,
    dist: Binary64,
    route: Option<RouteText>,
    photo: Option<PhotoText>,
    tar1090_url: Seq<char>,
)
    ensures
        ({
            let a = approach_alert(ac, altitude, dist, route, photo, tar1090_url);
            &&& a.icao_hex == ac.hex@
            &&& a.callsign == ac.shown_name()
            &&& a.altitude_m == altitude
            &&& a.distance_km == dist
            &&& ac.speed() matches Some(v) ==> a.speed_kmh == v
            &&& a.tar1090_url == tar1090_url
            &&& route matches Some(r) ==> {
                &&& r.origin_name matches Some(n) ==> a.origin is Some && n.is_prefix_of(
                    a.origin->0,
                )
                &&& r.origin_iata matches Some(i) ==> a.origin is Some && has_text(a.origin->0, i)
                &&& r.destination_name matches Some(n) ==> a.destination is Some
                    && n.is_prefix_of(a.destination->0)
                &&& r.destination_iata matches Some(i) ==> a.destination is Some && has_text(
                    a.destination->0,
                    i,
                )
                &&& r.origin_name is None && r.origin_iata is None <==> a.origin is None
                &&& r.destination_name is None && r.destination_iata is None
                    <==> a.destination is None
            }
            &&& route is None ==> a.origin is None && a.destination is None
            &&& photo matches Some(p) ==> a.photo_url == Some(p.thumbnail_large)
                && a.photographer == Some(p.photographer) && a.aircraft_type == p.aircraft_type
                && a.airline == p.airline_name
            &&& photo is None ==> a.photo_url is None && a.photographer is None
        }),
{
    if let Some(r) = route {
        lemma_airport(r.origin_name, r.origin_iata);
        lemma_airport(r.destination_name, r.destination_iata);
    }
}

/// An airport is known by its name, its code, or both.
proof fn lemma_airport(name: Option<Seq<char>>, iata: Option<Seq<char>>)
    ensures
        airport_text(name, iata) is None <==> name is None && iata is None,
        name matches Some(n) ==> n.is_prefix_of(airport_text(name, iata)->0),
        iata matches Some(i) ==> has_text(airport_text(name, iata)->0, i),
{
    let e = Seq::<char>::empty();
    match (name, iata) {
        (Some(n), Some(i)) => {
            let t = n + " ("@ + i + ")"@;
            assert(t.subrange(0, n.len() as int) =~= n);
            lemma_has_part(n + " ("@, i, ")"@);
        },
        (Some(n), None) => {
            assert(n.subrange(0, n.len() as int) =~= n);
        },
        (None, Some(i)) => {
            assert(e + i + e =~= i);
            lemma_has_part(e, i, e);
        },
        (None, None) => {},
    }
}

/// An aircraft is named by its call sign without the white space around it, or by its address where
/// it has none.
pub proof fn law_aircraft_have_a_name(ac: AircraftRecord)
    ensures
        ac.flight is Some && trimmed(ac.flight->0@).len() > 0 ==> ac.shown_name() == trimmed(
            ac.flight->0@,
        ),
        ac.flight is None || trimmed(ac.flight->0@).len() == 0 ==> ac.shown_name() == "HEX-"@
            + ac.hex@,
{
}

/// What is said of an aircraft holds its call sign and its height in whole metres, and where both
/// are known, where it comes from and then where it goes to.
pub proof fn law_what_is_said_of_an_aircraft(alert: AlertText)
    ensures
        has_text(voice_text(alert), alert.callsign + "便"@),
        has_text(
            voice_text(alert),
            "高度"@ + signed_digits(rounded_away(alert.altitude_m)) + "メートル"@,
        ),
        alert.origin is Some && alert.destination is Some ==> (alert.origin->0 + "発、"@
            + alert.destination->0 + "行き"@).is_prefix_of(voice_text(alert)),
        alert.aircraft_type matches Some(kind) ==> has_text(voice_text(alert), kind),
        alert.airline matches Some(airline) ==> has_text(voice_text(alert), airline),
{
    let all = voice_text(alert);
    let airline = text_or(alert.airline, Seq::empty());
    let kind = text_or(alert.aircraft_type, "飛行機"@);
    let height = signed_digits(rounded_away(alert.altitude_m));
    let ga = "が、高度"@;
    let metres = "メートルで上空を通過中なのだ！"@;
    let tail = ga + height + metres;
    let sign = alert.callsign;
    let bin = "便"@;
    let comma = "便、"@;
    let e = Seq::<char>::empty();
    reveal_strlit("が、高度");
    reveal_strlit("高度");
    reveal_strlit("メートルで上空を通過中なのだ！");
    reveal_strlit("メートル");
    reveal_strlit("便、");
    reveal_strlit("便");
    reveal_strlit("行きの");
    reveal_strlit("行き");
    let high = "高度"@ + height + "メートル"@;
    assert(tail =~= ga.take(2) + high + metres.skip(4));
    lemma_has_part(ga.take(2), high, metres.skip(4));
    if alert.origin is Some && alert.destination is Some {
        let o = alert.origin->0;
        let d = alert.destination->0;
        let way = o + "発、"@ + d + "行きの"@;
        let front = way + airline + sign + comma + kind;
        lemma_has_behind(front, tail, high);
        assert(all == front + tail);
        lemma_has_part(way, airline, sign);
        lemma_keeps_three(way + airline + sign, comma, kind, tail, airline);
        lemma_has_across(way + airline, sign, sign, comma, bin);
        lemma_has_more(way + airline + sign + comma, kind, sign + bin);
        lemma_has_more(front, tail, sign + bin);
        lemma_has_part(way + airline + sign + comma, kind, tail);
        let part = o + "発、"@ + d + "行き"@;
        assert(part.is_prefix_of(all)) by {
            assert(all.subrange(0, part.len() as int) =~= way.subrange(0, part.len() as int));
            assert(way.subrange(0, part.len() as int) =~= part);
        }
    } else if airline.len() > 0 {
        let front = airline + "の"@ + kind + "、"@ + sign + bin;
        lemma_has_behind(front, tail, high);
        assert(e + airline =~= airline);
        lemma_has_part(e, airline, "の"@);
        lemma_keeps_three(airline + "の"@, kind, "、"@, sign, airline);
        lemma_reaches(airline + "の"@ + kind + "、"@ + sign, bin, tail, airline);
        lemma_has_part(airline + "の"@, kind, "、"@);
        lemma_keeps_three(airline + "の"@ + kind + "、"@, sign, bin, tail, kind);
        lemma_has_across(airline + "の"@ + kind + "、"@, sign, sign, bin, bin);
        lemma_has_more(front, tail, sign + bin);
    } else {
        let front = sign + comma + kind;
        lemma_has_behind(front, tail, high);
        assert(e + sign =~= sign);
        lemma_has_across(e, sign, sign, comma, bin);
        lemma_has_more(sign + comma, kind, sign + bin);
        lemma_has_more(front, tail, sign + bin);
        lemma_has_part(sign + comma, kind, tail);
        if alert.airline is Some {
            assert(all =~= e + airline + all);
            lemma_has_part(e, airline, all);
        }
    }
}

/// Three more parts behind take nothing away.
proof fn lemma_keeps_three(
    s: Seq<char>,
    a: Seq<char>,
    b: Seq<char>,
    c: Seq<char>,
    part: Seq<char>,
)
    requires
        has_text(s, part),
    ensures
        has_text(s + a + b + c, part),
{
    lemma_reaches(s, a, b, part);
    lemma_has_more(s + a + b, c, part);
}

/// Every address that was found is tried, and each that is tried is the given one or was found.
pub proof fn law_candidates_are_all_tried(base: Seq<char>, found: Seq<Option<Seq<char>>>)
    ensures
        forall|u: Seq<char>| #[trigger]
            push_all_new(seq![base], found).contains(u) <==> u == base || found.contains(Some(u)),
    decreases found.len(),
{
    let all = push_all_new(seq![base], found);
    if found.len() > 0 {
        let rest = found.drop_last();
        law_candidates_are_all_tried(base, rest);
        let front = push_all_new(seq![base], rest);
        assert(found =~= rest.push(found.last()));
        assert forall|u: Seq<char>| #[trigger] all.contains(u) <==> u == base || found.contains(
            Some(u),
        ) by {
            if found.contains(Some(u)) {
                let k = choose|k: int| 0 <= k < found.len() && found[k] == Some(u);
                if k < rest.len() {
                    assert(rest[k] == Some(u));
                }
            }
            if rest.contains(Some(u)) {
                let k = choose|k: int| 0 <= k < rest.len() && rest[k] == Some(u);
                assert(found[k] == Some(u));
            }
            if found.last() == Some(u) {
                assert(found[found.len() - 1] == Some(u));
            }
            if front.contains(u) {
                let k = choose|k: int| 0 <= k < front.len() && front[k] == u;
                assert(all[k] == u);
            }
            if found.last() == Some(u) && !front.contains(u) {
                assert(all[front.len() as int] == u);
            }
            if all.contains(u) && !front.contains(u) {
                let k = choose|k: int| 0 <= k < all.len() && all[k] == u;
                if k < front.len() {
                    assert(front[k] == u);
                }
            }
        }
    } else {
        assert forall|u: Seq<char>| #[trigger] all.contains(u) <==> u == base || found.contains(
            Some(u),
        ) by {
            assert(all[0] == base);
        }
    }
}

/// The lines that show an alert hold what they say: name, airline, type, route from origin to
/// destination, height in metres, distance in kilometres and the photo.
pub proof fn law_alert_lines_show_the_alert(alert: AlertText)
    ensures
        ({
            let lines = alert_lines(alert);
            &&& lines.len() == 7
            &&& alert.callsign.is_suffix_of(lines[0])
            &&& alert.airline matches Some(x) ==> x.is_suffix_of(lines[1])
            &&& alert.aircraft_type matches Some(x) ==> x.is_suffix_of(lines[2])
            &&& alert.origin is Some && alert.destination is Some ==> (alert.origin->0 + " ➜ "@
                + alert.destination->0).is_suffix_of(lines[3])
            &&& (fixed_text(alert.altitude_m, 0) + " m"@).is_suffix_of(lines[4])
            &&& (fixed_text(alert.distance_km, 1) + " km"@).is_suffix_of(lines[5])
            &&& alert.photo_url matches Some(x) ==> x.is_suffix_of(lines[6])
        }),
{
    let lines = alert_lines(alert);
    lemma_last_part("  便名:       "@, alert.callsign);
    lemma_last_part("  航空会社:   "@, text_or(alert.airline, "不明"@));
    lemma_last_part("  機種:       "@, text_or(alert.aircraft_type, "不明"@));
    let o = text_or(alert.origin, "不明"@);
    let d = text_or(alert.destination, "不明"@);
    let r = "  ルート:     "@;
    lemma_last_part(r, o + " ➜ "@ + d);
    assert(lines[3] =~= r + (o + " ➜ "@ + d));
    let m = fixed_text(alert.altitude_m, 0) + " m"@;
    lemma_last_part("  高度:       "@, m);
    assert(lines[4] =~= "  高度:       "@ + m);
    let km = fixed_text(alert.distance_km, 1) + " km"@;
    lemma_last_part("  最接近距離: "@, km);
    assert(lines[5] =~= "  最接近距離: "@ + km);
    lemma_last_part("  実機写真:   "@, text_or(alert.photo_url, "なし"@));
}

/// A round asks each address once and no others: the one that served last, and the candidates.
pub proof fn law_round_asks_no_others(candidates: Seq<Seq<char>>, active: Option<Seq<char>>)
    requires
        candidates.no_duplicates(),
    ensures
        forall|u: Seq<char>| #[trigger]
            round_of(candidates, active).contains(u) ==> candidates.contains(u) || active == Some(
                u,
            ),
        active is None ==> round_of(candidates, active) == candidates,
        active matches Some(url) ==> !round_of(candidates, active).drop_first().contains(url),
{
    if let Some(url) = active {
        let keep = |x: Seq<char>| x != url;
        let rest = candidates.filter(keep);
        let r = round_of(candidates, active);
        assert(r.drop_first() =~= rest);
        assert forall|u: Seq<char>| #[trigger] r.contains(u) implies candidates.contains(u)
            || active == Some(u) by {
            let k = choose|k: int| 0 <= k < r.len() && r[k] == u;
            if k > 0 {
                assert(rest[k - 1] == u);
                assert(rest.contains(u));
                candidates.lemma_filter_contains_rev(keep, u);
            }
        }
        if rest.contains(url) {
            let k = choose|k: int| 0 <= k < rest.len() && rest[k] == url;
            candidates.lemma_filter_pred(keep, k);
        }
    }
}

/// The alert for trying out the announcements tells of the aircraft that was found, with its
/// airports by code.
pub proof fn law_trial_alerts_tell_of_their_aircraft(
    ac: AircraftRecord,
    dist: Binary64,
    route: Option<RouteText>,
    photo: Option<PhotoText>,
    tar1090_url: Seq<char>,
)
    ensures
        ({
            let a = trial_alert(ac, dist, route, photo, tar1090_url);
            &&& a.icao_hex == ac.hex@
            &&& a.callsign == ac.shown_name()
            &&& a.distance_km == dist
            &&& ac.altitude() matches Some(h) ==> a.altitude_m == h
            &&& ac.speed() matches Some(v) ==> a.speed_kmh == v
            &&& ac.altitude() is None ==> a.altitude_m == of_integer(5_000)
            &&& ac.speed() is None ==> a.speed_kmh == of_integer(750)
            &&& route matches Some(r) ==> a.origin == r.origin_iata && a.destination
                == r.destination_iata
            &&& photo matches Some(p) ==> a.photo_url == Some(p.thumbnail_large)
            &&& a.tar1090_url == tar1090_url
        }),
{
}

/// A receiver is looked for where receivers commonly are: each of the usual paths at its address is
/// tried, where the address can be read.
pub proof fn law_usual_paths_are_tried(base: Seq<char>)
    ensures
        candidate_urls(base)[0] == base,
        forall|path: Seq<char>|
            path == "/data/aircraft.json"@ || path == "/tar1090/data/aircraft.json"@ || path
                == "/aircraft.json"@ || path == "/run/readsb/aircraft.json"@ ==> (
            #[trigger] url_with_path(base, path) is Some ==> candidate_urls(base).contains(
                url_with_path(base, path)->0,
            )),
{
    let found = Seq::new(4, |i: int| url_with_path(base, common_paths()[i]));
    law_candidates_are_distinct(base, found);
    law_candidates_are_all_tried(base, found);
    assert forall|path: Seq<char>|
        path == "/data/aircraft.json"@ || path == "/tar1090/data/aircraft.json"@ || path
            == "/aircraft.json"@ || path == "/run/readsb/aircraft.json"@ implies (
    #[trigger] url_with_path(base, path) is Some ==> candidate_urls(base).contains(
        url_with_path(base, path)->0,
    )) by {
        if url_with_path(base, path) is Some {
            let i: int = if path == common_paths()[0] {
                0
            } else if path == common_paths()[1] {
                1
            } else if path == common_paths()[2] {
                2
            } else {
                3
            };
            assert(found[i] == url_with_path(base, path));
            assert(found.contains(Some(url_with_path(base, path)->0)));
        }
    }
}

/// The plain values of a route, a photo and an alert are those that they hold.
pub proof fn law_alerts_are_what_they_say(
    r: FlightRoute,
    p: AircraftPhotoMeta,
    a: AircraftAlert,
)
    ensures
        r@.callsign == r.callsign@,
        r@.origin_iata == opt_text(r.origin_iata),
        r@.origin_name == opt_text(r.origin_name),
        r@.destination_iata == opt_text(r.destination_iata),
        r@.destination_name == opt_text(r.destination_name),
        p@.thumbnail_large == p.thumbnail_large@,
        p@.photographer == p.photographer@,
        p@.aircraft_type == opt_text(p.aircraft_type),
        p@.airline_name == opt_text(p.airline_name),
        a@.icao_hex == a.icao_hex@,
        a@.callsign == a.callsign@,
        a@.airline == opt_text(a.airline),
        a@.aircraft_type == opt_text(a.aircraft_type),
        a@.origin == opt_text(a.origin),
        a@.destination == opt_text(a.destination),
        a@.altitude_m == a.altitude_m,
        a@.speed_kmh == a.speed_kmh,
        a@.distance_km == a.distance_km,
        a@.photo_url == opt_text(a.photo_url),
        a@.photographer == opt_text(a.photographer),
        a@.tar1090_url == a.tar1090_url@,
{
}

} // verus!
