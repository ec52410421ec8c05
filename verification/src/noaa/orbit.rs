//! The NOAA satellites and their passes.

use crate::binary64::Binary64;
use crate::orbit::SignalType;
use crate::passes::{are_all_runs, are_passes, planned, scan_len, TopoPosition};
use crate::tle::{elements_in_reply, reply_elements};
use vstd::prelude::*;

pub use crate::orbit::azimuth_to_direction;

verus! {

/// A satellite to follow, with its orbital elements.
#[derive(Clone, Debug)]
pub struct SatelliteInfo {
    pub name: String,
    pub norad_id: u32,
    pub frequency_hz: u64,
    pub line1: String,
    pub line2: String,
}

/// A pass of a satellite. Times are milliseconds of Unix time.
#[derive(Clone, Debug)]
pub struct SatellitePass {
    pub satellite_name: String,
    pub frequency_hz: u64,
    pub aos: i64,
    pub los: i64,
    pub max_elevation_deg: Binary64,
    /// Azimuth at the greatest elevation: 0 north, 90 east.
    pub peak_azimuth_deg: Binary64,
}

/// The pass as one of a satellite that transmits APT.
pub open spec fn lift(p: SatellitePass) -> crate::orbit::SatellitePass {
    crate::orbit::SatellitePass {
        satellite_name: p.satellite_name,
        frequency_hz: p.frequency_hz,
        signal_type: SignalType::Apt,
        aos: p.aos,
        los: p.los,
        max_elevation_deg: p.max_elevation_deg,
        peak_azimuth_deg: p.peak_azimuth_deg,
    }
}

/// The same for a list.
pub open spec fn lift_all(s: Seq<SatellitePass>) -> Seq<crate::orbit::SatellitePass> {
    Seq::new(s.len(), |i: int| lift(s[i]))
}

/// The satellite as one that transmits APT.
pub open spec fn lift_info(sat: SatelliteInfo) -> crate::orbit::SatelliteInfo {
    crate::orbit::SatelliteInfo {
        name: sat.name,
        norad_id: sat.norad_id,
        frequency_hz: sat.frequency_hz,
        signal_type: SignalType::Apt,
        line1: sat.line1,
        line2: sat.line2,
    }
}

/// The passes of all satellites, one satellite after the other.
pub open spec fn all_passes(lists: Seq<Result<Vec<SatellitePass>, String>>) -> Seq<SatellitePass>
    decreases lists.len(),
{
    if lists.len() == 0 {
        Seq::empty()
    } else {
        match lists.last() {
            Ok(list) => all_passes(lists.drop_last()) + list@,
            Err(_) => all_passes(lists.drop_last()),
        }
    }
}

/// A pass without its signal type.
fn lower(p: crate::orbit::SatellitePass) -> (r: SatellitePass)
    ensures
        r == (SatellitePass {
            satellite_name: p.satellite_name,
            frequency_hz: p.frequency_hz,
            aos: p.aos,
            los: p.los,
            max_elevation_deg: p.max_elevation_deg,
            peak_azimuth_deg: p.peak_azimuth_deg,
        }),
{
    SatellitePass {
        satellite_name: p.satellite_name,
        frequency_hz: p.frequency_hz,
        aos: p.aos,
        los: p.los,
        max_elevation_deg: p.max_elevation_deg,
        peak_azimuth_deg: p.peak_azimuth_deg,
    }
}

/// Passes without their signal type.
fn lower_all(v: Vec<crate::orbit::SatellitePass>) -> (r: Vec<SatellitePass>)
    requires
        forall|i: int|
            0 <= i < v@.len() ==> (#[trigger] v@[i]).signal_type == SignalType::Apt,
    ensures
        lift_all(r@) == v@,
{
    let ghost whole = v@;
    let mut r: Vec<SatellitePass> = Vec::new();
    for p in it: v
        invariant
            it.seq() == whole,
            forall|i: int|
                0 <= i < whole.len() ==> (#[trigger] whole[i]).signal_type == SignalType::Apt,
            r@.len() == it.index(),
            forall|i: int| 0 <= i < r@.len() ==> lift(#[trigger] r@[i]) == whole[i],
    {
        r.push(lower(p));
    }
    assert(lift_all(r@) =~= whole);
    r
}

/// Predicts passes.
pub struct OrbitPredictor;

impl OrbitPredictor {
    /// The passes of a satellite within `duration_hours` hours from `start`, by its position at
    /// each sample.
    pub fn predict_passes_for_satellite(
        sat: &SatelliteInfo,
        samples: &Vec<TopoPosition>,
        start: i64,
        duration_hours: u64,
        min_el: Binary64,
    ) -> (r: Vec<SatellitePass>)
        requires
            samples@.len() == scan_len(duration_hours as int),
            start + duration_hours * 3_600_000 <= i64::MAX,
        ensures
            exists|runs: Seq<(int, int)>| #[trigger]
                are_all_runs(samples@, min_el, runs) && are_passes(
                    lift_all(r@),
                    lift_info(*sat),
                    samples@,
                    start as int,
                    duration_hours as int,
                    runs,
                ),
            forall|k: int| 0 <= k < r@.len() ==> (#[trigger] r@[k]).aos < r@[k].los,
    {
        let info: crate::orbit::SatelliteInfo = crate::orbit::SatelliteInfo {
            name: sat.name.clone(),
            norad_id: sat.norad_id,
            frequency_hz: sat.frequency_hz,
            signal_type: SignalType::Apt,
            line1: sat.line1.clone(),
            line2: sat.line2.clone(),
        };
        let passes: Vec<crate::orbit::SatellitePass> =
            crate::passes::OrbitPredictor::predict_passes_for_satellite(
            &info,
            samples,
            start,
            duration_hours,
            min_el,
        );
        proof {
            let runs = choose|runs: Seq<(int, int)>| #[trigger]
                are_all_runs(samples@, min_el, runs) && are_passes(
                    passes@,
                    info,
                    samples@,
                    start as int,
                    duration_hours as int,
                    runs,
                );
            assert forall|k: int| 0 <= k < passes@.len() implies (
            #[trigger] passes@[k]).signal_type == SignalType::Apt by {
                assert(crate::passes::pass_covers(
                    passes@[k],
                    info,
                    samples@,
                    start as int,
                    duration_hours as int,
                    runs[k].0,
                    runs[k].1,
                ));
            }
        }
        let ghost whole = passes@;
        let r: Vec<SatellitePass> = lower_all(passes);
        assert forall|k: int| 0 <= k < r@.len() implies (#[trigger] r@[k]).aos < r@[k].los by {
            assert(lift_all(r@)[k] == whole[k]);
        }
        r
    }

    /// The plan for one receiver, or the first error: a satellite whose elements cannot be used
    /// keeps the plan from being made.
    pub fn predict_all_passes(lists: Vec<Result<Vec<SatellitePass>, String>>) -> (r: Result<
        Vec<SatellitePass>,
        String,
    >)
        ensures
            match r {
                Ok(v) => (forall|i: int| 0 <= i < lists@.len() ==> (#[trigger] lists@[i]) is Ok)
                    && lift_all(v@) == planned(lift_all(all_passes(lists@))),
                Err(e) => exists|i: int|
                    0 <= i < lists@.len() && (#[trigger] lists@[i]) == Err::<
                        Vec<SatellitePass>,
                        String,
                    >(e) && forall|j: int| 0 <= j < i ==> (#[trigger] lists@[j]) is Ok,
            },
    {
        let ghost whole = lists@;
        let mut all: Vec<crate::orbit::SatellitePass> = Vec::new();
        assert(lift_all(all_passes(whole.take(0))) =~= Seq::empty());
        for list in it: lists
            invariant
                it.seq() == whole,
                lists@ == whole,
                forall|i: int| 0 <= i < it.index() ==> (#[trigger] whole[i]) is Ok,
                all@ == lift_all(all_passes(whole.take(it.index() as int))),
        {
            assert(whole.take(it.index() + 1).drop_last() =~= whole.take(it.index() as int));
            let ghost seen = all_passes(whole.take(it.index() as int));
            match list {
                Ok(passes) => {
                    let ghost more = passes@;
                    let ghost before = all@;
                    for p in inner: passes
                        invariant
                            inner.seq() == more,
                            before == lift_all(seen),
                            all@ == before + lift_all(more.take(inner.index() as int)),
                    {
                        all.push(
                            crate::orbit::SatellitePass {
                                satellite_name: p.satellite_name,
                                frequency_hz: p.frequency_hz,
                                signal_type: SignalType::Apt,
                                aos: p.aos,
                                los: p.los,
                                max_elevation_deg: p.max_elevation_deg,
                                peak_azimuth_deg: p.peak_azimuth_deg,
                            },
                        );
                        assert(all@ =~= before + lift_all(more.take(inner.index() + 1)));
                    }
                    assert(more.take(more.len() as int) =~= more);
                    assert(all@ =~= lift_all(seen + more));
                },
                Err(e) => {
                    return Err(e);
                },
            }
        }
        assert(whole.take(whole.len() as int) =~= whole);
        let mut one: Vec<Option<Vec<crate::orbit::SatellitePass>>> = Vec::new();
        let ghost gathered = all@;
        one.push(Some(all));
        proof {
            reveal_with_fuel(crate::passes::gathered, 2);
            assert(one@.drop_last() =~= Seq::empty());
            assert(crate::passes::gathered(one@) =~= gathered);
            crate::passes::law_plan_is_of_predicted_passes(gathered);
            assert forall|i: int| 0 <= i < planned(gathered).len() implies (
            #[trigger] planned(gathered)[i]).signal_type == SignalType::Apt by {
                assert(gathered.contains(planned(gathered)[i]));
            }
        }
        Ok(lower_all(crate::passes::OrbitPredictor::predict_all_passes(one)))
    }
}

/// The satellites that are followed: name, catalogue number and frequency in Hz.
pub fn weather_targets() -> (r: Vec<(&'static str, u32, u64)>)
    ensures
        r@.len() == 3,
        forall|k: int|
            0 <= k < 3 ==> ((#[trigger] r@[k]).0@, r@[k].1, r@[k].2) == followed(k),
{
    let mut r: Vec<(&'static str, u32, u64)> = Vec::new();
    r.push(("NOAA 15", 25338, 137_620_000));
    r.push(("NOAA 18", 28654, 137_912_500));
    r.push(("NOAA 19", 33591, 137_100_000));
    r
}

/// How the query for the elements of a satellite was answered.
#[derive(Clone, Debug)]
pub enum TleReply {
    /// It was not.
    NoAnswer,
    /// The text of the answer could not be read.
    NoText,
    Text(String),
}

/// The satellites that are followed, as plain values.
pub open spec fn followed(i: int) -> (Seq<char>, u32, u64) {
    if i == 0 {
        ("NOAA 15"@, 25338, 137_620_000)
    } else if i == 1 {
        ("NOAA 18"@, 28654, 137_912_500)
    } else {
        ("NOAA 19"@, 33591, 137_100_000)
    }
}

/// Why a reply keeps the elements from being fetched; nothing where it does not.
pub open spec fn reply_error(i: int, reply: TleReply) -> Option<Seq<char>> {
    match reply {
        TleReply::NoAnswer => Some("TLE取得失敗: "@ + followed(i).0),
        TleReply::NoText => Some("レスポンステキスト取得失敗: "@ + followed(i).0),
        TleReply::Text(_) => None,
    }
}

/// A satellite with its elements, as plain values.
pub struct WeatherText {
    pub target: (Seq<char>, u32, u64),
    pub line1: Seq<char>,
    pub line2: Seq<char>,
}

/// What a list of satellites holds.
pub open spec fn weather_texts(v: Seq<SatelliteInfo>) -> Seq<WeatherText> {
    Seq::new(
        v.len(),
        |i: int|
            WeatherText {
                target: (v[i].name@, v[i].norad_id, v[i].frequency_hz),
                line1: v[i].line1@,
                line2: v[i].line2@,
            },
    )
}

/// The first `n` satellites whose reply holds elements, each with them.
pub open spec fn found_weather(replies: Seq<TleReply>, n: nat) -> Seq<WeatherText>
    decreases n,
{
    if n == 0 {
        Seq::empty()
    } else {
        let before = found_weather(replies, (n - 1) as nat);
        match replies[n - 1] {
            TleReply::Text(text) => match reply_elements(text@) {
                Some(lines) => before.push(
                    WeatherText { target: followed(n - 1), line1: lines.0, line2: lines.1 },
                ),
                None => before,
            },
            _ => before,
        }
    }
}

/// The satellites whose replies hold elements, or the first failure. `replies` holds the reply
/// for each of the followed satellites.
pub fn fetch_weather_tles(replies: &Vec<TleReply>) -> (r: Result<Vec<SatelliteInfo>, String>)
    requires
        replies@.len() == 3,
    ensures
        match r {
            Ok(v) => (forall|i: int|
                0 <= i < 3 ==> reply_error(i, #[trigger] replies@[i]) is None) && weather_texts(v@)
                == found_weather(replies@, 3),
            Err(e) => exists|i: int|
                0 <= i < 3 && reply_error(i, #[trigger] replies@[i]) == Some(e@) && forall|j: int|
                    0 <= j < i ==> reply_error(j, #[trigger] replies@[j]) is None,
        },
{
    let targets: Vec<(&'static str, u32, u64)> = weather_targets();
    let mut found: Vec<SatelliteInfo> = Vec::new();
    let mut i: usize = 0;
    assert(weather_texts(found@) =~= Seq::empty());
    while i < 3
        invariant
            targets@.len() == 3,
            forall|k: int|
                0 <= k < 3 ==> ((#[trigger] targets@[k]).0@, targets@[k].1, targets@[k].2)
                    == followed(k),
            replies@.len() == 3,
            i <= 3,
            forall|k: int| 0 <= k < i ==> reply_error(k, #[trigger] replies@[k]) is None,
            weather_texts(found@) == found_weather(replies@, i as nat),
        decreases 3 - i,
    {
        let (name, norad_id, frequency_hz): (&'static str, u32, u64) = targets[i];
        assert((targets@[i as int].0@, targets@[i as int].1, targets@[i as int].2) == followed(
            i as int,
        ));
        match &replies[i] {
            TleReply::NoAnswer => {
                let mut e: String = "TLE取得失敗: ".to_owned();
                e.append(name);
                assert(reply_error(i as int, replies@[i as int]) == Some(e@));
                return Err(e);
            },
            TleReply::NoText => {
                let mut e: String = "レスポンステキスト取得失敗: ".to_owned();
                e.append(name);
                assert(reply_error(i as int, replies@[i as int]) == Some(e@));
                return Err(e);
            },
            TleReply::Text(text) => {
                let ghost before = weather_texts(found@);
                if let Some((line1, line2)) = elements_in_reply(text.as_str()) {
                    let ghost added = WeatherText {
                        target: followed(i as int),
                        line1: line1@,
                        line2: line2@,
                    };
                    found.push(
                        SatelliteInfo {
                            name: name.to_owned(),
                            norad_id,
                            frequency_hz,
                            line1,
                            line2,
                        },
                    );
                    assert(weather_texts(found@) =~= before.push(added));
                }
            },
        }
        i = i + 1;
    }
    Ok(found)
}

/// The passes of every satellite are planned with, and a pass of the plan is one of them.
pub proof fn law_all_satellites_are_planned_with(
    lists: Seq<Result<Vec<SatellitePass>, String>>,
    list: Vec<SatellitePass>,
)
    ensures
        all_passes(Seq::empty()) == Seq::<SatellitePass>::empty(),
        all_passes(lists.push(Ok(list))) == all_passes(lists) + list@,
{
    assert(lists.push(Ok(list)).drop_last() =~= lists);
}

/// The three weather satellites are followed under their catalogue numbers and on their
/// frequencies.
pub proof fn law_weather_satellites_are_followed()
    ensures
        followed(0) == ("NOAA 15"@, 25338u32, 137_620_000u64),
        followed(1) == ("NOAA 18"@, 28654u32, 137_912_500u64),
        followed(2) == ("NOAA 19"@, 33591u32, 137_100_000u64),
        forall|k: int|
            0 <= k < 3 ==> crate::tle::noaa_targets()[k] == (
                (#[trigger] followed(k)).0,
                followed(k).1,
                followed(k).2,
                SignalType::Apt,
            ),
{
}

/// A satellite whose reply holds elements is followed with them, under its own name, and one
/// whose reply holds none is left out.
pub proof fn law_satellites_with_elements_are_followed(replies: Seq<TleReply>, n: nat, k: int)
    requires
        n <= replies.len(),
        0 <= k < n,
        replies[k] is Text,
    ensures
        reply_elements(replies[k]->Text_0@) matches Some(lines) ==> found_weather(
            replies,
            n,
        ).contains((WeatherText { target: followed(k), line1: lines.0, line2: lines.1 })),
        found_weather(replies, n).len() <= n,
    decreases n,
{
    let m = (n - 1) as nat;
    let before = found_weather(replies, m);
    let all = found_weather(replies, n);
    lemma_found_weather_len(replies, n);
    if reply_elements(replies[k]->Text_0@) is Some {
        if k < m {
            law_satellites_with_elements_are_followed(replies, m, k);
            let lines = reply_elements(replies[k]->Text_0@)->0;
            let x = WeatherText { target: followed(k), line1: lines.0, line2: lines.1 };
            let j = choose|j: int| 0 <= j < before.len() && before[j] == x;
            assert(all[j] == x);
        } else {
            assert(all.contains(all[all.len() - 1]));
        }
    }
}

/// At most one satellite for each reply.
proof fn lemma_found_weather_len(replies: Seq<TleReply>, n: nat)
    ensures
        found_weather(replies, n).len() <= n,
    decreases n,
{
    if n > 0 {
        lemma_found_weather_len(replies, (n - 1) as nat);
    }
}

/// The passes and satellites of the weather station are passes and satellites like any others,
/// with the same values, that transmit APT.
pub proof fn law_weather_passes_are_passes(
    p: SatellitePass,
    passes: Seq<SatellitePass>,
    sat: SatelliteInfo,
    found: Seq<SatelliteInfo>,
    i: int,
)
    ensures
        lift(p).satellite_name == p.satellite_name,
        lift(p).frequency_hz == p.frequency_hz,
        lift(p).signal_type == SignalType::Apt,
        lift(p).aos == p.aos,
        lift(p).los == p.los,
        lift(p).max_elevation_deg == p.max_elevation_deg,
        lift(p).peak_azimuth_deg == p.peak_azimuth_deg,
        lift_all(passes).len() == passes.len(),
        0 <= i < passes.len() ==> lift_all(passes)[i] == lift(passes[i]),
        lift_info(sat).name == sat.name,
        lift_info(sat).norad_id == sat.norad_id,
        lift_info(sat).frequency_hz == sat.frequency_hz,
        lift_info(sat).signal_type == SignalType::Apt,
        lift_info(sat).line1 == sat.line1,
        lift_info(sat).line2 == sat.line2,
        weather_texts(found).len() == found.len(),
        0 <= i < found.len() ==> weather_texts(found)[i] == (WeatherText {
            target: (found[i].name@, found[i].norad_id, found[i].frequency_hz),
            line1: found[i].line1@,
            line2: found[i].line2@,
        }),
{
}

/// A query that was not answered, or whose answer could not be read, is an error that names the
/// satellite; an answer is none.
pub proof fn law_unanswered_queries_are_errors(i: int, reply: TleReply)
    ensures
        reply_error(i, reply) is None <==> reply is Text,
        !(reply is Text) ==> followed(i).0.is_suffix_of(reply_error(i, reply)->0),
{
    let name = followed(i).0;
    let a = "TLE取得失敗: "@ + name;
    let b = "レスポンステキスト取得失敗: "@ + name;
    assert(a.subrange(a.len() - name.len(), a.len() as int) =~= name);
    assert(b.subrange(b.len() - name.len(), b.len() as int) =~= name);
}

} // verus!
