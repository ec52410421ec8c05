//! Prediction of passes: the scan over a satellite's elevations, and the choice between passes
//! that overlap.

use crate::binary64::Binary64;
use crate::orbit::{SatelliteInfo, SatellitePass};
use vstd::prelude::*;

verus! {

/// Where a satellite stands in the sky.
#[derive(Clone, Copy, Debug, PartialEq, Eq, Structural)]
pub struct TopoPosition {
    pub elevation_deg: Binary64,
    pub azimuth_deg: Binary64,
}

/// The satellite stands high enough at sample `i`.
pub open spec fn visible(samples: Seq<TopoPosition>, min_el: Binary64, i: int) -> bool {
    samples[i].elevation_deg.order() >= min_el.order()
}

/// The samples from `a` up to but without `b` are a longest stretch of visible ones. The last
/// sample alone is none: nothing of what begins there is within the scan.
pub open spec fn is_run(samples: Seq<TopoPosition>, min_el: Binary64, a: int, b: int) -> bool {
    &&& 0 <= a < b <= samples.len()
    &&& a < samples.len() - 1
    &&& forall|i: int| a <= i < b ==> #[trigger] visible(samples, min_el, i)
    &&& a == 0 || !visible(samples, min_el, a - 1)
    &&& b == samples.len() || !visible(samples, min_el, b)
}

/// `runs` holds every longest stretch of visible samples, in order of time.
pub open spec fn are_all_runs(
    samples: Seq<TopoPosition>,
    min_el: Binary64,
    runs: Seq<(int, int)>,
) -> bool {
    &&& forall|k: int|
        0 <= k < runs.len() ==> is_run(samples, min_el, (#[trigger] runs[k]).0, runs[k].1)
    &&& forall|k: int, l: int|
        0 <= k < l < runs.len() ==> (#[trigger] runs[k]).1 < (#[trigger] runs[l]).0
    &&& forall|a: int, b: int|
        is_run(samples, min_el, a, b) ==> #[trigger] runs.contains((a, b))
}

/// Sample `p` is the first with the greatest elevation among those from `a` up to `b`.
pub open spec fn is_peak(samples: Seq<TopoPosition>, a: int, b: int, p: int) -> bool {
    &&& a <= p < b
    &&& forall|i: int|
        a <= i < p ==> (#[trigger] samples[i]).elevation_deg.order()
            < samples[p].elevation_deg.order()
    &&& forall|i: int|
        p <= i < b ==> (#[trigger] samples[i]).elevation_deg.order()
            <= samples[p].elevation_deg.order()
}

/// The time of sample `i` of a scan that begins at `start`.
pub open spec fn sample_time(start: int, i: int) -> int {
    start + i * 30_000
}

/// How many samples a scan of `hours` hours takes, both ends included.
pub open spec fn scan_len(hours: int) -> int {
    hours * 120 + 1
}

/// `pass` is the pass of `sat` over the samples from `a` up to `b`. A pass that is still going on
/// at the last sample ends with the scan.
pub open spec fn pass_covers(
    pass: SatellitePass,
    sat: SatelliteInfo,
    samples: Seq<TopoPosition>,
    start: int,
    hours: int,
    a: int,
    b: int,
) -> bool {
    &&& pass.satellite_name@ == sat.name@
    &&& pass.frequency_hz == sat.frequency_hz
    &&& pass.signal_type == sat.signal_type
    &&& pass.aos == sample_time(start, a)
    &&& pass.los == if b < samples.len() {
        sample_time(start, b)
    } else {
        start + hours * 3_600_000
    }
    &&& exists|p: int| #[trigger]
        is_peak(samples, a, b, p) && pass.max_elevation_deg == samples[p].elevation_deg
            && pass.peak_azimuth_deg == samples[p].azimuth_deg
}

/// `passes` are the passes of `sat` over the longest stretches of visible samples.
pub open spec fn are_passes(
    passes: Seq<SatellitePass>,
    sat: SatelliteInfo,
    samples: Seq<TopoPosition>,
    start: int,
    hours: int,
    runs: Seq<(int, int)>,
) -> bool {
    &&& passes.len() == runs.len()
    &&& forall|k: int|
        0 <= k < passes.len() ==> pass_covers(
            #[trigger] passes[k],
            sat,
            samples,
            start,
            hours,
            runs[k].0,
            runs[k].1,
        )
}

/// Predicts passes.
pub struct OrbitPredictor;

impl OrbitPredictor {
    /// How many samples a scan of `duration_hours` hours takes.
    pub fn sample_count(duration_hours: u64) -> (r: u64)
        requires
            duration_hours <= 1_000_000_000,
        ensures
            r == scan_len(duration_hours as int),
    {
        duration_hours * 120 + 1
    }

    /// The time of sample `i` of a scan that begins at `start`.
    pub fn time_of_sample(start: i64, i: u64) -> (r: i64)
        requires
            sample_time(start as int, i as int) <= i64::MAX,
        ensures
            r == sample_time(start as int, i as int),
    {
        (start as i128 + i as i128 * 30_000) as i64
    }

    /// The passes of a satellite within `duration_hours` hours from `start`: one for each longest
    /// stretch of samples at which it stands at `min_el` or higher.
    pub fn predict_passes_for_satellite(
        sat: &SatelliteInfo,
        samples: &Vec<TopoPosition>,
        start: i64,
        duration_hours: u64,
        min_el: Binary64,
    ) -> (r: Vec<SatellitePass>)
        requires
            samples@.len() == scan_len(duration_hours as int),
            start + duration_hours * 3_600_000 <= i64::MAX,
        ensures
            exists|runs: Seq<(int, int)>| #[trigger]
                are_all_runs(samples@, min_el, runs) && are_passes(
                    r@,
                    *sat,
                    samples@,
                    start as int,
                    duration_hours as int,
                    runs,
                ),
            forall|k: int| 0 <= k < r@.len() ==> (#[trigger] r@[k]).aos < r@[k].los,
    {
        let n: usize = samples.len();
        let ghost s = samples@;
        let mut passes: Vec<SatellitePass> = Vec::new();
        let ghost mut runs: Seq<(int, int)> = Seq::empty();
        let mut in_pass: bool = false;
        let mut first: usize = 0;
        let mut peak: usize = 0;
        let mut i: usize = 0;
        while i < n
            invariant
                s == samples@,
                n == s.len(),
                n == scan_len(duration_hours as int),
                start + duration_hours * 3_600_000 <= i64::MAX,
                0 <= i <= n,
                forall|k: int|
                    0 <= k < runs.len() ==> is_run(s, min_el, (#[trigger] runs[k]).0, runs[k].1)
                        && runs[k].1 < i,
                forall|k: int, l: int|
                    0 <= k < l < runs.len() ==> (#[trigger] runs[k]).1 < (#[trigger] runs[l]).0,
                forall|a: int, b: int|
                    is_run(s, min_el, a, b) && b < i ==> #[trigger] runs.contains((a, b)),
                are_passes(passes@, *sat, s, start as int, duration_hours as int, runs),
                in_pass ==> {
                    &&& first <= peak < i
                    &&& first < n - 1
                    &&& forall|j: int| first <= j < i ==> #[trigger] visible(s, min_el, j)
                    &&& first == 0 || !visible(s, min_el, first - 1)
                    &&& is_peak(s, first as int, i as int, peak as int)
                    &&& forall|k: int| 0 <= k < runs.len() ==> (#[trigger] runs[k]).1 < first
                },
                !in_pass ==> (i == 0 || !visible(s, min_el, i - 1) || (i == n && (n == 1
                    || !visible(s, min_el, n - 2)))),
            decreases n - i,
        {
            if samples[i].elevation_deg.order() >= min_el.order() {
                assert(visible(s, min_el, i as int));
                if !in_pass {
                    if i < n - 1 {
                        in_pass = true;
                        first = i;
                        peak = i;
                    }
                } else if samples[i].elevation_deg.order() > samples[peak].elevation_deg.order() {
                    peak = i;
                }
            } else {
                assert(!visible(s, min_el, i as int));
                if in_pass {
                    in_pass = false;
                    let pass: SatellitePass = SatellitePass {
                        satellite_name: sat.name.clone(),
                        frequency_hz: sat.frequency_hz,
                        signal_type: sat.signal_type,
                        aos: Self::time_of_sample(start, first as u64),
                        los: Self::time_of_sample(start, i as u64),
                        max_elevation_deg: samples[peak].elevation_deg,
                        peak_azimuth_deg: samples[peak].azimuth_deg,
                    };
                    proof {
                        assert(is_run(s, min_el, first as int, i as int));
                        assert forall|a: int, b: int|
                            is_run(s, min_el, a, b) && b <= i implies #[trigger] runs.push(
                            (first as int, i as int),
                        ).contains((a, b)) by {
                            let more = runs.push((first as int, i as int));
                            if b == i {
                                lemma_run_start(s, min_el, a, first as int, b);
                                assert(more[runs.len() as int] == (a, b));
                            } else {
                                assert(runs.contains((a, b)));
                                let k = choose|k: int| 0 <= k < runs.len() && runs[k] == (a, b);
                                assert(more[k] == (a, b));
                            }
                        }
                        runs = runs.push((first as int, i as int));
                    }
                    passes.push(pass);
                } else {
                    assert forall|a: int, b: int|
                        is_run(s, min_el, a, b) && b <= i implies #[trigger] runs.contains(
                        (a, b),
                    ) by {
                        if b == i {
                            assert(visible(s, min_el, b - 1));
                        }
                    }
                }
            }
            assert forall|a: int, b: int|
                is_run(s, min_el, a, b) && b < i + 1 implies #[trigger] runs.contains((a, b)) by {
                if b == i {
                    assert(b == s.len() || !visible(s, min_el, b));
                }
            }
            i = i + 1;
        }
        if in_pass {
            let pass: SatellitePass = SatellitePass {
                satellite_name: sat.name.clone(),
                frequency_hz: sat.frequency_hz,
                signal_type: sat.signal_type,
                aos: Self::time_of_sample(start, first as u64),
                los: (start as i128 + duration_hours as i128 * 3_600_000) as i64,
                max_elevation_deg: samples[peak].elevation_deg,
                peak_azimuth_deg: samples[peak].azimuth_deg,
            };
            proof {
                assert(is_run(s, min_el, first as int, n as int));
                let more = runs.push((first as int, n as int));
                assert forall|a: int, b: int| is_run(s, min_el, a, b) implies #[trigger] more.contains(
                    (a, b),
                ) by {
                    if b == n {
                        lemma_run_start(s, min_el, a, first as int, b);
                        assert(more[runs.len() as int] == (a, b));
                    } else {
                        assert(runs.contains((a, b)));
                        let k = choose|k: int| 0 <= k < runs.len() && runs[k] == (a, b);
                        assert(more[k] == (a, b));
                    }
                }
                runs = more;
            }
            passes.push(pass);
        } else {
            assert forall|a: int, b: int| is_run(s, min_el, a, b) implies #[trigger] runs.contains(
                (a, b),
            ) by {
                if b == n {
                    assert(visible(s, min_el, b - 1));
                    assert(visible(s, min_el, b - 2));
                }
            }
        }
        assert(are_all_runs(s, min_el, runs));
        proof {
            law_passes_of_a_scan(
                passes@,
                *sat,
                s,
                start as int,
                duration_hours as int,
                min_el,
                runs,
            );
        }
        passes
    }
}

/// `s`, in which the passes that begin no later than `p` come before it.
pub open spec fn insert_pass(s: Seq<SatellitePass>, p: SatellitePass) -> Seq<SatellitePass>
    decreases s.len(),
{
    if s.len() == 0 || s.last().aos <= p.aos {
        s.push(p)
    } else {
        insert_pass(s.drop_last(), p).push(s.last())
    }
}

/// The passes in the order in which they begin; those that begin together keep their order.
pub open spec fn by_aos(s: Seq<SatellitePass>) -> Seq<SatellitePass>
    decreases s.len(),
{
    if s.len() == 0 {
        Seq::empty()
    } else {
        insert_pass(by_aos(s.drop_last()), s.last())
    }
}

/// Each pass begins no earlier than those before it.
pub open spec fn sorted_by_aos(s: Seq<SatellitePass>) -> bool {
    forall|i: int, j: int| 0 <= i < j < s.len() ==> (#[trigger] s[i]).aos <= (#[trigger] s[j]).aos
}

/// The passes that one receiver follows: a pass that begins before the one chosen last has ended
/// takes its place where it culminates higher, and is left out where it does not.
pub open spec fn resolved(s: Seq<SatellitePass>) -> Seq<SatellitePass>
    decreases s.len(),
{
    if s.len() == 0 {
        Seq::empty()
    } else {
        let r = resolved(s.drop_last());
        let p = s.last();
        if r.len() > 0 && p.aos < r.last().los {
            if p.max_elevation_deg.order() > r.last().max_elevation_deg.order() {
                r.drop_last().push(p)
            } else {
                r
            }
        } else {
            r.push(p)
        }
    }
}

/// The plan made of all predicted passes.
pub open spec fn planned(all: Seq<SatellitePass>) -> Seq<SatellitePass> {
    resolved(by_aos(all))
}

/// The passes of all satellites; a satellite whose elements could not be used has none.
pub open spec fn gathered(lists: Seq<Option<Vec<SatellitePass>>>) -> Seq<SatellitePass>
    decreases lists.len(),
{
    if lists.len() == 0 {
        Seq::empty()
    } else {
        match lists.last() {
            Some(list) => gathered(lists.drop_last()) + list@,
            None => gathered(lists.drop_last()),
        }
    }
}

/// Two passes do not overlap.
pub open spec fn apart(p: SatellitePass, q: SatellitePass) -> bool {
    p.los <= q.aos || q.los <= p.aos
}

/// Where `p` comes to stand in `s`.
proof fn lemma_insert_pass_at(s: Seq<SatellitePass>, p: SatellitePass, k: int)
    requires
        0 <= k <= s.len(),
        k == 0 || s[k - 1].aos <= p.aos,
        forall|j: int| k <= j < s.len() ==> (#[trigger] s[j]).aos > p.aos,
    ensures
        insert_pass(s, p) == s.insert(k, p),
    decreases s.len(),
{
    if k == s.len() {
        assert(s.insert(k, p) =~= s.push(p));
    } else {
        lemma_insert_pass_at(s.drop_last(), p, k);
        assert(s.insert(k, p) =~= s.drop_last().insert(k, p).push(s.last()));
    }
}

/// Sorts passes by their beginning.
fn sort_by_aos(all: Vec<SatellitePass>) -> (r: Vec<SatellitePass>)
    ensures
        r@ == by_aos(all@),
{
    let ghost whole = all@;
    let mut r: Vec<SatellitePass> = Vec::new();
    for p in it: all
        invariant
            it.seq() == whole,
            r@ == by_aos(whole.take(it.index() as int)),
    {
        assert(whole.take(it.index() + 1).drop_last() =~= whole.take(it.index() as int));
        let mut k: usize = r.len();
        while k > 0 && r[k - 1].aos > p.aos
            invariant
                k <= r@.len(),
                forall|j: int| k <= j < r@.len() ==> (#[trigger] r@[j]).aos > p.aos,
            decreases k,
        {
            k = k - 1;
        }
        proof {
            lemma_insert_pass_at(r@, p, k as int);
        }
        r.insert(k, p);
    }
    assert(whole.take(whole.len() as int) =~= whole);
    r
}

/// Chooses between passes that overlap.
fn resolve(sorted: Vec<SatellitePass>) -> (r: Vec<SatellitePass>)
    ensures
        r@ == resolved(sorted@),
{
    let ghost whole = sorted@;
    let mut r: Vec<SatellitePass> = Vec::new();
    for p in it: sorted
        invariant
            it.seq() == whole,
            r@ == resolved(whole.take(it.index() as int)),
    {
        assert(whole.take(it.index() + 1).drop_last() =~= whole.take(it.index() as int));
        let n: usize = r.len();
        if n > 0 && p.aos < r[n - 1].los {
            if p.max_elevation_deg.order() > r[n - 1].max_elevation_deg.order() {
                r.pop();
                r.push(p);
            }
        } else {
            r.push(p);
        }
    }
    assert(whole.take(whole.len() as int) =~= whole);
    r
}

impl OrbitPredictor {
    /// The plan for one receiver: the passes of all satellites in the order in which they begin,
    /// where they overlap the one that culminates higher. A satellite whose elements could not be
    /// used (`None`) does not keep the others from being planned.
    pub fn predict_all_passes(lists: Vec<Option<Vec<SatellitePass>>>) -> (r: Vec<SatellitePass>)
        ensures
            r@ == planned(gathered(lists@)),
    {
        let ghost whole = lists@;
        let mut all: Vec<SatellitePass> = Vec::new();
        for list in it: lists
            invariant
                it.seq() == whole,
                all@ == gathered(whole.take(it.index() as int)),
        {
            assert(whole.take(it.index() + 1).drop_last() =~= whole.take(it.index() as int));
            match list {
                Some(passes) => {
                    let mut passes: Vec<SatellitePass> = passes;
                    all.append(&mut passes);
                },
                None => {},
            }
        }
        assert(whole.take(whole.len() as int) =~= whole);
        resolve(sort_by_aos(all))
    }
}

/// Two longest stretches that end at the same sample begin at the same sample.
proof fn lemma_run_start(samples: Seq<TopoPosition>, min_el: Binary64, a: int, c: int, b: int)
    requires
        0 <= a < b <= samples.len(),
        0 <= c < b,
        forall|i: int| a <= i < b ==> #[trigger] visible(samples, min_el, i),
        forall|i: int| c <= i < b ==> #[trigger] visible(samples, min_el, i),
        a == 0 || !visible(samples, min_el, a - 1),
        c == 0 || !visible(samples, min_el, c - 1),
    ensures
        a == c,
{
    if a < c {
        assert(visible(samples, min_el, c - 1));
    } else if c < a {
        assert(visible(samples, min_el, a - 1));
    }
}

/// Inserting keeps the order and adds exactly the inserted pass.
proof fn lemma_insert_pass(s: Seq<SatellitePass>, p: SatellitePass)
    requires
        sorted_by_aos(s),
    ensures
        sorted_by_aos(insert_pass(s, p)),
        insert_pass(s, p).len() == s.len() + 1,
        forall|x: SatellitePass|
            #![trigger insert_pass(s, p).contains(x)]
            insert_pass(s, p).contains(x) <==> s.contains(x) || x == p,
        insert_pass(s, p).to_multiset() == s.to_multiset().insert(p),
    decreases s.len(),
{
    broadcast use vstd::seq_lib::group_to_multiset_ensures;

    let r = insert_pass(s, p);
    if s.len() == 0 || s.last().aos <= p.aos {
        assert forall|x: SatellitePass| s.contains(x) || x == p implies #[trigger] r.contains(
            x,
        ) by {
            if s.contains(x) {
                let i = choose|i: int| 0 <= i < s.len() && s[i] == x;
                assert(r[i] == x);
            } else {
                assert(r[s.len() as int] == x);
            }
        }
    } else {
        let front = s.drop_last();
        lemma_insert_pass(front, p);
        let f = insert_pass(front, p);
        assert(s =~= front.push(s.last()));
        assert forall|x: SatellitePass| s.contains(x) || x == p implies #[trigger] r.contains(
            x,
        ) by {
            if x == s.last() {
                assert(r[f.len() as int] == x);
            } else {
                if x != p {
                    let i = choose|i: int| 0 <= i < s.len() && s[i] == x;
                    assert(front[i] == x);
                }
                assert(f.contains(x));
                let i = choose|i: int| 0 <= i < f.len() && f[i] == x;
                assert(r[i] == x);
            }
        }
        assert forall|x: SatellitePass| #[trigger] r.contains(x) implies s.contains(x) || x == p by {
            let i = choose|i: int| 0 <= i < r.len() && r[i] == x;
            if i < f.len() {
                assert(f.contains(f[i]));
                if x != p {
                    let j = choose|j: int| 0 <= j < front.len() && front[j] == x;
                    assert(s[j] == x);
                }
            }
        }
        assert forall|i: int, j: int| 0 <= i < j < r.len() implies (#[trigger] r[i]).aos <= (
        #[trigger] r[j]).aos by {
            if j == f.len() {
                assert(f.contains(f[i]));
                if f[i] != p {
                    let k = choose|k: int| 0 <= k < front.len() && front[k] == f[i];
                    assert(s[k].aos <= s[s.len() - 1].aos);
                }
            }
        }
        assert(s.to_multiset() =~= front.to_multiset().insert(s.last()));
        assert(r.to_multiset() =~= s.to_multiset().insert(p));
    }
}

/// The plan takes the passes in the order in which they begin: sorting yields the same passes, as
/// often as they were there, each beginning no earlier than those before it.
pub proof fn law_by_aos_sorts(all: Seq<SatellitePass>)
    ensures
        sorted_by_aos(by_aos(all)),
        by_aos(all).to_multiset() == all.to_multiset(),
        forall|x: SatellitePass| #[trigger] by_aos(all).contains(x) <==> all.contains(x),
    decreases all.len(),
{
    broadcast use vstd::seq_lib::group_to_multiset_ensures;

    if all.len() > 0 {
        let front = all.drop_last();
        law_by_aos_sorts(front);
        lemma_insert_pass(by_aos(front), all.last());
        assert(all =~= front.push(all.last()));
        assert forall|x: SatellitePass| #[trigger] by_aos(all).contains(x) <==> all.contains(x) by {
            if all.contains(x) && x != all.last() {
                let i = choose|i: int| 0 <= i < all.len() && all[i] == x;
                assert(front[i] == x);
            }
            if front.contains(x) {
                let i = choose|i: int| 0 <= i < front.len() && front[i] == x;
                assert(all[i] == x);
            }
            assert(all[all.len() - 1] == all.last());
        }
    }
}

/// What the choice between overlapping passes keeps, by induction over the passes seen so far.
proof fn lemma_resolved(s: Seq<SatellitePass>)
    requires
        sorted_by_aos(s),
    ensures
        s.len() > 0 ==> resolved(s).len() > 0,
        sorted_by_aos(resolved(s)),
        forall|i: int, j: int|
            0 <= i < j < resolved(s).len() ==> (#[trigger] resolved(s)[i]).los <= (
            #[trigger] resolved(s)[j]).aos,
        forall|i: int| 0 <= i < resolved(s).len() ==> s.contains(#[trigger] resolved(s)[i]),
    decreases s.len(),
{
    if s.len() > 0 {
        let front = s.drop_last();
        let p = s.last();
        lemma_resolved(front);
        let before = resolved(front);
        let r = resolved(s);
        assert forall|i: int| 0 <= i < before.len() implies s.contains(#[trigger] before[i])
            && before[i].aos <= p.aos by {
            let k = choose|k: int| 0 <= k < front.len() && front[k] == before[i];
            assert(s[k] == before[i]);
            assert(s[k].aos <= s[s.len() - 1].aos);
        }
        assert(s[s.len() - 1] == p);
        assert forall|i: int| 0 <= i < r.len() implies s.contains(#[trigger] r[i]) by {
            if i < before.len() && r[i] == before[i] {
            } else {
                assert(r[i] == p);
            }
        }
    }
}

/// Planned passes come in the order in which they begin, and none begins before the one before
/// it has ended: one receiver can follow all of them.
pub proof fn law_plan_has_no_overlap(all: Seq<SatellitePass>)
    ensures
        sorted_by_aos(planned(all)),
        forall|i: int, j: int|
            0 <= i < j < planned(all).len() ==> (#[trigger] planned(all)[i]).los <= (
            #[trigger] planned(all)[j]).aos,
{
    law_by_aos_sorts(all);
    lemma_resolved(by_aos(all));
}

/// Every planned pass is one of the predicted passes, and there is a plan where anything passes.
pub proof fn law_plan_is_of_predicted_passes(all: Seq<SatellitePass>)
    ensures
        forall|i: int| 0 <= i < planned(all).len() ==> all.contains(#[trigger] planned(all)[i]),
        all.len() > 0 ==> planned(all).len() > 0,
{
    law_by_aos_sorts(all);
    lemma_resolved(by_aos(all));
    if all.len() > 0 {
        assert(all.contains(all[0]));
        assert(by_aos(all).contains(all[0]));
    }
}

/// A pass that stays chosen once it is chosen is in the plan.
proof fn lemma_kept(s: Seq<SatellitePass>, p: SatellitePass)
    requires
        sorted_by_aos(s),
        s.contains(p),
        p.aos < p.los,
        forall|q: SatellitePass|
            #[trigger] s.contains(q) && q != p ==> q.max_elevation_deg.order()
                < p.max_elevation_deg.order() || (apart(p, q) && q.aos < q.los),
    ensures
        resolved(s).contains(p),
    decreases s.len(),
{
    let front = s.drop_last();
    let last = s.last();
    let before = resolved(front);
    let r = resolved(s);
    lemma_resolved(front);
    assert(s[s.len() - 1] == last);
    assert forall|q: SatellitePass| #[trigger] front.contains(q) implies s.contains(q) by {
        let k = choose|k: int| 0 <= k < front.len() && front[k] == q;
        assert(s[k] == q);
    }
    if front.contains(p) {
        lemma_kept(front, p);
        let k = choose|k: int| 0 <= k < before.len() && before[k] == p;
        assert(s.contains(last));
        if k == before.len() - 1 && r.len() == before.len() && r != before {
            let m = choose|m: int| 0 <= m < front.len() && front[m] == p;
            assert(s[m].aos <= s[s.len() - 1].aos);
        }
        assert(r[k] == p);
    } else {
        let m = choose|m: int| 0 <= m < s.len() && s[m] == p;
        if m < s.len() - 1 {
            assert(front[m] == p);
        }
        assert(last == p);
        if before.len() > 0 && p.aos < before.last().los {
            assert(front.contains(before[before.len() - 1]));
            let j = choose|j: int| 0 <= j < front.len() && front[j] == before.last();
            assert(s[j].aos <= s[s.len() - 1].aos);
            assert(s.contains(before.last()));
        }
        assert(r[r.len() - 1] == p);
    }
}

/// The pass that culminates higher than all others is always planned.
pub proof fn law_highest_pass_is_planned(all: Seq<SatellitePass>, p: SatellitePass)
    requires
        all.contains(p),
        p.aos < p.los,
        forall|q: SatellitePass|
            #[trigger] all.contains(q) && q != p ==> q.max_elevation_deg.order()
                < p.max_elevation_deg.order(),
    ensures
        planned(all).contains(p),
{
    law_by_aos_sorts(all);
    assert(by_aos(all).contains(p));
    lemma_kept(by_aos(all), p);
}

/// A pass that overlaps no other is always planned.
pub proof fn law_lone_pass_is_planned(all: Seq<SatellitePass>, p: SatellitePass)
    requires
        all.contains(p),
        p.aos < p.los,
        forall|q: SatellitePass|
            #[trigger] all.contains(q) && q != p ==> apart(p, q) && q.aos < q.los,
    ensures
        planned(all).contains(p),
{
    law_by_aos_sorts(all);
    assert(by_aos(all).contains(p));
    lemma_kept(by_aos(all), p);
}

/// A pass that the choice leaves out overlaps another that culminates at least as high.
proof fn lemma_left_out(s: Seq<SatellitePass>, x: SatellitePass)
    requires
        sorted_by_aos(s),
        forall|q: SatellitePass| #[trigger] s.contains(q) ==> q.aos < q.los,
        s.contains(x),
        !resolved(s).contains(x),
    ensures
        exists|y: SatellitePass|
            #[trigger] s.contains(y) && y != x && !apart(x, y) && y.max_elevation_deg.order()
                >= x.max_elevation_deg.order(),
    decreases s.len(),
{
    let front = s.drop_last();
    let p = s.last();
    let before = resolved(front);
    let r = resolved(s);
    lemma_resolved(front);
    assert(s[s.len() - 1] == p);
    assert forall|q: SatellitePass| #[trigger] front.contains(q) implies s.contains(q) && q.aos
        <= p.aos by {
        let k = choose|k: int| 0 <= k < front.len() && front[k] == q;
        assert(s[k] == q);
        assert(s[k].aos <= s[s.len() - 1].aos);
    }
    if front.contains(x) && !before.contains(x) {
        lemma_left_out(front, x);
        let y = choose|y: SatellitePass|
            #[trigger] front.contains(y) && y != x && !apart(x, y) && y.max_elevation_deg.order()
                >= x.max_elevation_deg.order();
        assert(s.contains(y));
    } else if front.contains(x) {
        let k = choose|k: int| 0 <= k < before.len() && before[k] == x;
        if k < before.len() - 1 || !(p.aos < before.last().los)
            || p.max_elevation_deg.order() <= before.last().max_elevation_deg.order() {
            assert(r[k] == x);
        }
        assert(x == before.last());
        assert(s.contains(p));
        assert(s.contains(x));
        assert(!apart(x, p));
    } else {
        let m = choose|m: int| 0 <= m < s.len() && s[m] == x;
        if m < s.len() - 1 {
            assert(front[m] == x);
        }
        assert(x == p);
        if r.len() > 0 && r.last() == p {
            assert(r[r.len() - 1] == p);
        }
        let y = before.last();
        assert(front.contains(before[before.len() - 1]));
        assert(r == before);
        assert(r[r.len() - 1] == y);
        assert(s.contains(y) && y != x && !apart(x, y));
    }
}

/// No pass is given up for nothing: every predicted pass that is not planned overlaps another
/// predicted pass that culminates at least as high.
pub proof fn law_left_out_pass_yields_to_a_higher_one(all: Seq<SatellitePass>, x: SatellitePass)
    requires
        forall|q: SatellitePass| #[trigger] all.contains(q) ==> q.aos < q.los,
        all.contains(x),
        !planned(all).contains(x),
    ensures
        exists|y: SatellitePass|
            #[trigger] all.contains(y) && y != x && !apart(x, y) && y.max_elevation_deg.order()
                >= x.max_elevation_deg.order(),
{
    law_by_aos_sorts(all);
    let s = by_aos(all);
    assert forall|q: SatellitePass| #[trigger] s.contains(q) implies q.aos < q.los by {
        assert(all.contains(q));
    }
    assert(s.contains(x));
    lemma_left_out(s, x);
    let y = choose|y: SatellitePass|
        #[trigger] s.contains(y) && y != x && !apart(x, y) && y.max_elevation_deg.order()
            >= x.max_elevation_deg.order();
    assert(all.contains(y));
}

/// Of two passes that overlap, the one that culminates higher is planned; of two that culminate
/// equally high, the one that begins earlier.
pub proof fn law_higher_of_two_overlapping_passes(p: SatellitePass, q: SatellitePass)
    requires
        p.aos <= q.aos < p.los,
    ensures
        planned(seq![p, q]) == if q.max_elevation_deg.order() > p.max_elevation_deg.order() {
            seq![q]
        } else {
            seq![p]
        },
{
    reveal_with_fuel(by_aos, 3);
    reveal_with_fuel(insert_pass, 3);
    reveal_with_fuel(resolved, 3);
    assert(seq![p, q].drop_last() =~= seq![p]);
    assert(seq![p].drop_last() =~= Seq::empty());
    assert(by_aos(seq![p]) =~= seq![p]);
    assert(by_aos(seq![p, q]) =~= seq![p, q]);
    assert(resolved(seq![p]) =~= seq![p]);
    assert(planned(seq![p, q]) =~= if q.max_elevation_deg.order() > p.max_elevation_deg.order() {
        seq![q]
    } else {
        seq![p]
    });
}

/// Inserting at the end of passes that begin no later.
proof fn lemma_by_aos_of_sorted(s: Seq<SatellitePass>)
    requires
        sorted_by_aos(s),
    ensures
        by_aos(s) == s,
    decreases s.len(),
{
    if s.len() > 0 {
        lemma_by_aos_of_sorted(s.drop_last());
        if s.len() > 1 {
            assert(s[s.len() - 2].aos <= s[s.len() - 1].aos);
        }
        assert(by_aos(s) =~= s);
    } else {
        assert(by_aos(s) =~= s);
    }
}

/// Passes that do not overlap are all chosen.
proof fn lemma_resolved_of_disjoint(s: Seq<SatellitePass>)
    requires
        forall|i: int, j: int| 0 <= i < j < s.len() ==> (#[trigger] s[i]).los <= (#[trigger] s[j]).aos,
    ensures
        resolved(s) == s,
    decreases s.len(),
{
    if s.len() > 0 {
        lemma_resolved_of_disjoint(s.drop_last());
        if s.len() > 1 {
            assert(s[s.len() - 2].los <= s[s.len() - 1].aos);
        }
        assert(resolved(s) =~= s);
    } else {
        assert(resolved(s) =~= s);
    }
}

/// Planning a plan again changes nothing.
pub proof fn law_planning_twice_changes_nothing(all: Seq<SatellitePass>)
    ensures
        planned(planned(all)) == planned(all),
{
    law_plan_has_no_overlap(all);
    lemma_by_aos_of_sorted(planned(all));
    lemma_resolved_of_disjoint(planned(all));
}

/// The passes of one satellite are of that satellite, reach the least elevation, lie within the
/// scan and follow one another. Every pass ends after it begins.
pub proof fn law_passes_of_a_scan(
    passes: Seq<SatellitePass>,
    sat: SatelliteInfo,
    samples: Seq<TopoPosition>,
    start: int,
    hours: int,
    min_el: Binary64,
    runs: Seq<(int, int)>,
)
    requires
        samples.len() == scan_len(hours),
        are_all_runs(samples, min_el, runs),
        are_passes(passes, sat, samples, start, hours, runs),
    ensures
        forall|k: int|
            0 <= k < passes.len() ==> (#[trigger] passes[k]).max_elevation_deg.order()
                >= min_el.order() && start <= passes[k].aos < passes[k].los <= start + hours
                * 3_600_000 && passes[k].satellite_name@ == sat.name@ && passes[k].frequency_hz
                == sat.frequency_hz,
        forall|k: int, l: int|
            0 <= k < l < passes.len() ==> (#[trigger] passes[k]).los < (#[trigger] passes[l]).aos,
{
    assert forall|k: int| 0 <= k < passes.len() implies (
    #[trigger] passes[k]).max_elevation_deg.order() >= min_el.order() && start <= passes[k].aos
        < passes[k].los <= start + hours * 3_600_000 && passes[k].satellite_name@ == sat.name@
        && passes[k].frequency_hz == sat.frequency_hz by {
        let (a, b) = runs[k];
        assert(is_run(samples, min_el, a, b));
        let p = choose|p: int| #[trigger]
            is_peak(samples, a, b, p) && passes[k].max_elevation_deg == samples[p].elevation_deg
                && passes[k].peak_azimuth_deg == samples[p].azimuth_deg;
        assert(visible(samples, min_el, p));
    }
    assert forall|k: int, l: int| 0 <= k < l < passes.len() implies (#[trigger] passes[k]).los < (
    #[trigger] passes[l]).aos by {
        assert(runs[k].1 < runs[l].0);
        assert(is_run(samples, min_el, runs[l].0, runs[l].1));
    }
}

/// Two lists of all longest stretches agree up to any place that one of them reaches.
proof fn lemma_runs_agree(
    samples: Seq<TopoPosition>,
    min_el: Binary64,
    a: Seq<(int, int)>,
    b: Seq<(int, int)>,
    n: nat,
)
    requires
        are_all_runs(samples, min_el, a),
        are_all_runs(samples, min_el, b),
        n <= a.len(),
    ensures
        n <= b.len(),
        forall|k: int| 0 <= k < n ==> a[k] == #[trigger] b[k],
    decreases n,
{
    if n > 0 {
        let k = n - 1;
        lemma_runs_agree(samples, min_el, a, b, (n - 1) as nat);
        assert(is_run(samples, min_el, a[k].0, a[k].1));
        assert(b.contains((a[k].0, a[k].1)));
        let j = choose|j: int| 0 <= j < b.len() && b[j] == a[k];
        assert(is_run(samples, min_el, b[j].0, b[j].1));
        if j < k {
            assert(a[j] == b[j]);
            assert(a[j].1 < a[k].0);
        }
        assert(is_run(samples, min_el, b[k].0, b[k].1));
        assert(a.contains((b[k].0, b[k].1)));
        let i = choose|i: int| 0 <= i < a.len() && a[i] == b[k];
        if i < k {
            assert(a[i] == b[i]);
            assert(b[i].1 < b[k].0);
        }
        if j > k && i > k {
            assert(b[k].1 < b[j].0);
            assert(a[k].1 < a[i].0);
        }
    }
}

/// A scan has one answer: two lists of passes for the same samples hold the same passes.
pub proof fn law_scan_has_one_answer(
    p: Seq<SatellitePass>,
    q: Seq<SatellitePass>,
    sat: SatelliteInfo,
    samples: Seq<TopoPosition>,
    start: int,
    hours: int,
    min_el: Binary64,
    a: Seq<(int, int)>,
    b: Seq<(int, int)>,
)
    requires
        are_all_runs(samples, min_el, a),
        are_passes(p, sat, samples, start, hours, a),
        are_all_runs(samples, min_el, b),
        are_passes(q, sat, samples, start, hours, b),
    ensures
        a == b,
        p.len() == q.len(),
        forall|k: int|
            0 <= k < p.len() ==> {
                &&& (#[trigger] p[k]).satellite_name@ == (#[trigger] q[k]).satellite_name@
                &&& p[k].frequency_hz == q[k].frequency_hz
                &&& p[k].signal_type == q[k].signal_type
                &&& p[k].aos == q[k].aos
                &&& p[k].los == q[k].los
                &&& p[k].max_elevation_deg == q[k].max_elevation_deg
                &&& p[k].peak_azimuth_deg == q[k].peak_azimuth_deg
            },
{
    lemma_runs_agree(samples, min_el, a, b, a.len());
    lemma_runs_agree(samples, min_el, b, a, b.len());
    assert(a =~= b);
    assert forall|k: int| 0 <= k < p.len() implies (#[trigger] p[k]).max_elevation_deg == (
    #[trigger] q[k]).max_elevation_deg && p[k].peak_azimuth_deg == q[k].peak_azimuth_deg by {
        let x = choose|x: int| #[trigger]
            is_peak(samples, a[k].0, a[k].1, x) && p[k].max_elevation_deg
                == samples[x].elevation_deg && p[k].peak_azimuth_deg == samples[x].azimuth_deg;
        let y = choose|y: int| #[trigger]
            is_peak(samples, a[k].0, a[k].1, y) && q[k].max_elevation_deg
                == samples[y].elevation_deg && q[k].peak_azimuth_deg == samples[y].azimuth_deg;
        assert(x == y);
    }
}

/// Sorting puts a pass that begins last at the end.
proof fn lemma_by_aos_push(all: Seq<SatellitePass>, p: SatellitePass)
    requires
        forall|q: SatellitePass| #[trigger] all.contains(q) ==> q.aos <= p.aos,
    ensures
        by_aos(all.push(p)) == by_aos(all).push(p),
{
    law_by_aos_sorts(all);
    let s = by_aos(all);
    assert(all.push(p).drop_last() =~= all);
    if s.len() > 0 {
        assert(s.contains(s[s.len() - 1]));
    }
}

/// A pass that begins once the receiver is free is followed. Only a planned pass can keep it from
/// being planned, never one that was itself left out.
pub proof fn law_free_receiver_follows_the_next_pass(all: Seq<SatellitePass>, p: SatellitePass)
    requires
        forall|q: SatellitePass| #[trigger] all.contains(q) ==> q.aos <= p.aos,
        planned(all).len() == 0 || planned(all).last().los <= p.aos,
    ensures
        planned(all.push(p)) == planned(all).push(p),
{
    lemma_by_aos_push(all, p);
    assert(by_aos(all).push(p).drop_last() =~= by_aos(all));
}

/// A pass that begins while the receiver follows another takes its place where it culminates
/// higher, and else changes nothing.
pub proof fn law_busy_receiver_leaves_for_a_higher_pass(
    all: Seq<SatellitePass>,
    p: SatellitePass,
)
    requires
        forall|q: SatellitePass| #[trigger] all.contains(q) ==> q.aos <= p.aos,
        planned(all).len() > 0,
        p.aos < planned(all).last().los,
    ensures
        p.max_elevation_deg.order() <= planned(all).last().max_elevation_deg.order() ==> planned(
            all.push(p),
        ) == planned(all),
        p.max_elevation_deg.order() > planned(all).last().max_elevation_deg.order() ==> planned(
            all.push(p),
        ) == planned(all).drop_last().push(p),
{
    lemma_by_aos_push(all, p);
    assert(by_aos(all).push(p).drop_last() =~= by_aos(all));
}

/// Of three passes, of which the second overlaps the first and is no higher, and the third begins
/// after the first has ended, the first and the third are followed.
pub proof fn law_left_out_pass_is_in_nobodys_way(
    p: SatellitePass,
    q: SatellitePass,
    r: SatellitePass,
)
    requires
        p.aos <= q.aos < p.los <= r.aos,
        q.aos <= r.aos,
        q.max_elevation_deg.order() <= p.max_elevation_deg.order(),
    ensures
        planned(seq![p, q, r]) == seq![p, r],
{
    law_higher_of_two_overlapping_passes(p, q);
    law_free_receiver_follows_the_next_pass(seq![p, q], r);
    assert(seq![p, q].push(r) =~= seq![p, q, r]);
    assert(seq![p].push(r) =~= seq![p, r]);
}

/// Sorted passes that are the same passes, no two of which begin together, are in the same order.
proof fn lemma_one_order(a: Seq<SatellitePass>, b: Seq<SatellitePass>)
    requires
        sorted_by_aos(a),
        sorted_by_aos(b),
        a.to_multiset() == b.to_multiset(),
        forall|i: int, j: int| 0 <= i < j < a.len() ==> (#[trigger] a[i]).aos != (#[trigger] a[j]).aos,
    ensures
        a == b,
    decreases a.len(),
{
    broadcast use vstd::seq_lib::group_to_multiset_ensures;

    assert(a.len() == a.to_multiset().len());
    assert(b.len() == b.to_multiset().len());
    if a.len() > 0 {
        let x = a.last();
        let y = b.last();
        assert(a.contains(a[a.len() - 1]));
        assert(b.contains(b[b.len() - 1]));
        assert(a.to_multiset().count(x) > 0);
        assert(b.to_multiset().count(y) > 0);
        assert(b.contains(x));
        assert(a.contains(y));
        let k = choose|k: int| 0 <= k < b.len() && b[k] == x;
        let l = choose|l: int| 0 <= l < a.len() && a[l] == y;
        if k < b.len() - 1 {
            assert(b[k].aos <= b[b.len() - 1].aos);
        }
        if l < a.len() - 1 {
            assert(a[l].aos <= a[a.len() - 1].aos);
            assert(a[l].aos != a[a.len() - 1].aos);
        }
        assert(x == y);
        let f = a.drop_last();
        let g = b.drop_last();
        assert(a =~= f.push(x));
        assert(b =~= g.push(x));
        assert(f.to_multiset() =~= f.push(x).to_multiset().remove(x));
        assert(g.to_multiset() =~= g.push(x).to_multiset().remove(x));
        lemma_one_order(f, g);
    } else {
        assert(a =~= b);
    }
}

/// It does not matter in which order the passes are predicted: where no two begin together, the
/// same passes in another order have the same plan.
pub proof fn law_plan_does_not_depend_on_the_order(
    all: Seq<SatellitePass>,
    other: Seq<SatellitePass>,
)
    requires
        all.to_multiset() == other.to_multiset(),
        forall|i: int, j: int|
            0 <= i < j < all.len() ==> (#[trigger] all[i]).aos != (#[trigger] all[j]).aos,
    ensures
        planned(all) == planned(other),
{
    law_by_aos_sorts(all);
    law_by_aos_sorts(other);
    lemma_distinct_sorted(all);
    lemma_one_order(by_aos(all), by_aos(other));
}

/// Sorting passes of which no two begin together leaves no two that do.
proof fn lemma_distinct_sorted(all: Seq<SatellitePass>)
    requires
        forall|i: int, j: int|
            0 <= i < j < all.len() ==> (#[trigger] all[i]).aos != (#[trigger] all[j]).aos,
    ensures
        forall|i: int, j: int|
            0 <= i < j < by_aos(all).len() ==> (#[trigger] by_aos(all)[i]).aos != (
            #[trigger] by_aos(all)[j]).aos,
    decreases all.len(),
{
    if all.len() > 0 {
        let front = all.drop_last();
        let p = all.last();
        lemma_distinct_sorted(front);
        law_by_aos_sorts(front);
        let s = by_aos(front);
        assert forall|j: int| 0 <= j < s.len() implies (#[trigger] s[j]).aos != p.aos by {
            assert(s.contains(s[j]));
            let k = choose|k: int| 0 <= k < front.len() && front[k] == s[j];
            assert(all[k].aos != all[all.len() - 1].aos);
        }
        lemma_insert_distinct(s, p);
    }
}

/// Inserting a pass that begins with no other leaves no two that begin together.
proof fn lemma_insert_distinct(s: Seq<SatellitePass>, p: SatellitePass)
    requires
        sorted_by_aos(s),
        forall|i: int, j: int| 0 <= i < j < s.len() ==> (#[trigger] s[i]).aos != (#[trigger] s[j]).aos,
        forall|j: int| 0 <= j < s.len() ==> (#[trigger] s[j]).aos != p.aos,
    ensures
        forall|i: int, j: int|
            0 <= i < j < insert_pass(s, p).len() ==> (#[trigger] insert_pass(s, p)[i]).aos != (
            #[trigger] insert_pass(s, p)[j]).aos,
    decreases s.len(),
{
    if s.len() > 0 && s.last().aos > p.aos {
        let front = s.drop_last();
        lemma_insert_distinct(front, p);
        lemma_insert_pass(front, p);
        let f = insert_pass(front, p);
        assert forall|i: int| 0 <= i < f.len() implies (#[trigger] f[i]).aos != s.last().aos by {
            assert(f.contains(f[i]));
            if f[i] != p {
                let k = choose|k: int| 0 <= k < front.len() && front[k] == f[i];
                assert(s[k].aos != s[s.len() - 1].aos);
            }
        }
    }
}

/// The passes of every satellite that has any are planned with, in their order; a satellite
/// without usable elements takes nothing away.
pub proof fn law_all_satellites_are_planned_with(
    lists: Seq<Option<Vec<SatellitePass>>>,
    list: Vec<SatellitePass>,
)
    ensures
        gathered(Seq::empty()) == Seq::<SatellitePass>::empty(),
        gathered(lists.push(None)) == gathered(lists),
        gathered(lists.push(Some(list))) == gathered(lists) + list@,
{
    assert(lists.push(None).drop_last() =~= lists);
    assert(lists.push(Some(list)).drop_last() =~= lists);
}

/// Where a stretch of visible samples begins.
proof fn lemma_run_begins(samples: Seq<TopoPosition>, min_el: Binary64, i: int) -> (a: int)
    requires
        0 <= i < samples.len(),
        visible(samples, min_el, i),
    ensures
        0 <= a <= i,
        forall|j: int| a <= j <= i ==> #[trigger] visible(samples, min_el, j),
        a == 0 || !visible(samples, min_el, a - 1),
    decreases i,
{
    if i == 0 || !visible(samples, min_el, i - 1) {
        i
    } else {
        lemma_run_begins(samples, min_el, i - 1)
    }
}

/// Where a stretch of visible samples ends.
proof fn lemma_run_ends(samples: Seq<TopoPosition>, min_el: Binary64, i: int) -> (b: int)
    requires
        0 <= i < samples.len(),
        visible(samples, min_el, i),
    ensures
        i < b <= samples.len(),
        forall|j: int| i <= j < b ==> #[trigger] visible(samples, min_el, j),
        b == samples.len() || !visible(samples, min_el, b),
    decreases samples.len() - i,
{
    if i + 1 == samples.len() || !visible(samples, min_el, i + 1) {
        i + 1
    } else {
        lemma_run_ends(samples, min_el, i + 1)
    }
}

/// The satellite stands at the least elevation or higher exactly during its passes, with a sample
/// every 30 seconds: at any sample but the last, it is high enough where the sample lies in a
/// pass, and too low where it lies in none.
pub proof fn law_passes_are_when_it_is_visible(
    passes: Seq<SatellitePass>,
    sat: SatelliteInfo,
    samples: Seq<TopoPosition>,
    start: int,
    hours: int,
    min_el: Binary64,
    runs: Seq<(int, int)>,
    i: int,
)
    requires
        samples.len() == hours * 120 + 1,
        are_all_runs(samples, min_el, runs),
        are_passes(passes, sat, samples, start, hours, runs),
        0 <= i < samples.len() - 1,
    ensures
        samples[i].elevation_deg.order() >= min_el.order() <==> exists|k: int|
            0 <= k < passes.len() && (#[trigger] passes[k]).aos <= start + i * 30_000
                < passes[k].los,
{
    let t = start + i * 30_000;
    if samples[i].elevation_deg.order() >= min_el.order() {
        assert(visible(samples, min_el, i));
        let a = lemma_run_begins(samples, min_el, i);
        let b = lemma_run_ends(samples, min_el, i);
        assert(is_run(samples, min_el, a, b));
        assert(runs.contains((a, b)));
        let k = choose|k: int| 0 <= k < runs.len() && runs[k] == (a, b);
        assert(passes[k].aos <= t < passes[k].los);
    }
    if exists|k: int|
        0 <= k < passes.len() && (#[trigger] passes[k]).aos <= t < passes[k].los {
        let k = choose|k: int|
            0 <= k < passes.len() && (#[trigger] passes[k]).aos <= t < passes[k].los;
        let (a, b) = runs[k];
        assert(is_run(samples, min_el, a, b));
        assert(visible(samples, min_el, i));
    }
}

/// A pass culminates where its samples are highest: none of them is higher than the greatest
/// elevation of the pass, and the first that reaches it gives the azimuth.
pub proof fn law_pass_culminates_at_its_highest_sample(
    passes: Seq<SatellitePass>,
    sat: SatelliteInfo,
    samples: Seq<TopoPosition>,
    start: int,
    hours: int,
    min_el: Binary64,
    runs: Seq<(int, int)>,
    k: int,
)
    requires
        samples.len() == hours * 120 + 1,
        are_all_runs(samples, min_el, runs),
        are_passes(passes, sat, samples, start, hours, runs),
        0 <= k < passes.len(),
    ensures
        forall|i: int|
            0 <= i < samples.len() && passes[k].aos <= start + i * 30_000 < passes[k].los ==> (
            #[trigger] samples[i]).elevation_deg.order() <= passes[k].max_elevation_deg.order(),
        exists|i: int|
            0 <= i < samples.len() && passes[k].aos <= start + i * 30_000 <= passes[k].los && (
            #[trigger] samples[i]).elevation_deg == passes[k].max_elevation_deg
                && samples[i].azimuth_deg == passes[k].peak_azimuth_deg && (forall|j: int|
                0 <= j < i && passes[k].aos <= start + j * 30_000 ==> (
                #[trigger] samples[j]).elevation_deg.order()
                    < passes[k].max_elevation_deg.order()),
        passes[k].satellite_name@ == sat.name@,
        passes[k].frequency_hz == sat.frequency_hz,
        passes[k].signal_type == sat.signal_type,
{
    let (a, b) = runs[k];
    assert(is_run(samples, min_el, a, b));
    assert(pass_covers(passes[k], sat, samples, start, hours, a, b));
    let p = choose|p: int| #[trigger]
        is_peak(samples, a, b, p) && passes[k].max_elevation_deg == samples[p].elevation_deg
            && passes[k].peak_azimuth_deg == samples[p].azimuth_deg;
    assert(samples[p].elevation_deg == passes[k].max_elevation_deg);
}

/// A scan has a sample every 30 seconds, both ends included: the first at its start, the last when
/// its hours are over.
pub proof fn law_scan_has_a_sample_every_half_minute(start: int, hours: int, i: int)
    ensures
        scan_len(hours) == hours * 3600 / 30 + 1,
        sample_time(start, 0) == start,
        sample_time(start, i + 1) == sample_time(start, i) + 30 * 1000,
        sample_time(start, scan_len(hours) - 1) == start + hours * 60 * 60 * 1000,
{
}

/// Sorting keeps the order of passes that begin together: one more pass comes to stand behind all
/// that begin no later than it, and before all that begin later.
pub proof fn law_sorting_keeps_the_order_of_equals(
    all: Seq<SatellitePass>,
    p: SatellitePass,
) -> (k: int)
    ensures
        0 <= k <= by_aos(all).len(),
        by_aos(all.push(p)) == by_aos(all).insert(k, p),
        forall|j: int| 0 <= j < k ==> (#[trigger] by_aos(all)[j]).aos <= p.aos,
        forall|j: int| k <= j < by_aos(all).len() ==> (#[trigger] by_aos(all)[j]).aos > p.aos,
{
    law_by_aos_sorts(all);
    assert(all.push(p).drop_last() =~= all);
    let s = by_aos(all);
    let k = lemma_place_of(s, p, s.len() as int);
    lemma_insert_pass_at(s, p, k);
    k
}

/// Where a pass belongs among passes that are sorted.
proof fn lemma_place_of(s: Seq<SatellitePass>, p: SatellitePass, n: int) -> (k: int)
    requires
        sorted_by_aos(s),
        0 <= n <= s.len(),
        forall|j: int| n <= j < s.len() ==> (#[trigger] s[j]).aos > p.aos,
    ensures
        0 <= k <= n,
        k == 0 || s[k - 1].aos <= p.aos,
        forall|j: int| 0 <= j < k ==> (#[trigger] s[j]).aos <= p.aos,
        forall|j: int| k <= j < s.len() ==> (#[trigger] s[j]).aos > p.aos,
    decreases n,
{
    if n == 0 {
        0
    } else if s[n - 1].aos > p.aos {
        lemma_place_of(s, p, n - 1)
    } else {
        assert forall|j: int| 0 <= j < n implies (#[trigger] s[j]).aos <= p.aos by {
            if j < n - 1 {
                assert(s[j].aos <= s[n - 1].aos);
            }
        }
        n
    }
}

} // verus!
