//! Orbital elements: three-line texts, the satellites to follow, and the queries that fetch them.

use crate::binary64::pow10;
use crate::config::SatellitesConfig;
use crate::orbit::{signal_named, SatelliteInfo, SignalType};
use crate::text::{
    all_digits, blank, chars_of, decimal, digits, digits_value, filled_lines, has_text, is_digit,
    law_digits_read_back, law_padded_digits_read_back, lemma_filled_lines, lemma_one_piece,
    lemma_pieces_add, lemma_trimmed_back, lemma_trimmed_front, occurs_at, opt_text, padded_digits,
    pieces, right_aligned, spaces, starts_with, trim, trimmed, trimmed_lines, unicode_lower, views,
};
use std::collections::HashMap;
use vstd::prelude::*;

verus! {

/// A name and the two lines of elements.
pub type TleText = (Seq<char>, Seq<char>, Seq<char>);

/// How many bytes a character takes in UTF-8.
pub open spec fn utf8_width(c: char) -> nat {
    if c as u32 <= 0x7f {
        1
    } else if c as u32 <= 0x7ff {
        2
    } else if c as u32 <= 0xffff {
        3
    } else {
        4
    }
}

/// The characters at the front of `s` that take exactly `n` bytes in UTF-8, where there are such.
pub open spec fn front_bytes(s: Seq<char>, n: nat) -> Option<Seq<char>>
    decreases s.len(),
{
    if n == 0 {
        Some(Seq::empty())
    } else if s.len() == 0 || utf8_width(s[0]) > n {
        None
    } else {
        match front_bytes(s.drop_first(), (n - utf8_width(s[0])) as nat) {
            Some(rest) => Some(seq![s[0]] + rest),
            None => None,
        }
    }
}

/// The number that a text writes: digits, with a plus sign before them or without.
pub open spec fn number_in(s: Seq<char>) -> Option<nat> {
    let body = if s.len() > 0 && s[0] == '+' {
        s.drop_first()
    } else {
        s
    };
    if body.len() > 0 && all_digits(body) {
        Some(digits_value(body))
    } else {
        None
    }
}

/// The catalogue number in the third to seventh byte of the second line of elements. A line that
/// is too short, or in which a character lies across the end of that field, has none.
pub open spec fn catalog_number(line2: Seq<char>) -> Option<nat> {
    match front_bytes(line2.skip(2), 5) {
        Some(field) => number_in(trimmed(field)),
        None => None,
    }
}

/// Lines `i` to `i + 2` are a name and two lines of elements.
pub open spec fn tle_at(lines: Seq<Seq<char>>, i: int) -> bool {
    "1 "@.is_prefix_of(lines[i + 1]) && "2 "@.is_prefix_of(lines[i + 2])
}

/// `db` with the elements that `lines` hold from line `i` on. Elements that come later replace
/// those of the same number; lines that fit nowhere are passed over.
pub open spec fn with_elements(db: Map<u32, TleText>, lines: Seq<Seq<char>>, i: int) -> Map<
    u32,
    TleText,
>
    decreases lines.len() - i,
{
    if i < 0 || i + 2 >= lines.len() {
        db
    } else if tle_at(lines, i) {
        let more = match catalog_number(lines[i + 2]) {
            Some(n) => db.insert(n as u32, (lines[i], lines[i + 1], lines[i + 2])),
            None => db,
        };
        with_elements(more, lines, i + 3)
    } else {
        with_elements(db, lines, i + 1)
    }
}

/// What a table of elements holds.
pub open spec fn tle_map(m: Map<u32, (String, String, String)>) -> Map<u32, TleText> {
    m.map_values(|t: (String, String, String)| (t.0@, t.1@, t.2@))
}

/// Reads a number: digits, with a plus sign before them or without.
fn read_number(s: &str) -> (r: Option<u32>)
    requires
        s@.len() <= 5,
    ensures
        match r {
            Some(n) => number_in(s@) == Some(n as nat),
            None => number_in(s@) is None,
        },
{
    let cs: Vec<char> = chars_of(s);
    let n: usize = cs.len();
    let from: usize = if n > 0 && cs[0] == '+' {
        1
    } else {
        0
    };
    let ghost body = s@.skip(from as int);
    proof {
        if from == 0 {
            assert(body =~= s@);
        } else {
            assert(body =~= s@.drop_first());
        }
    }
    if from == n {
        return None;
    }
    let mut value: u32 = 0;
    let mut i: usize = from;
    assert(body.take(0) =~= Seq::<char>::empty());
    while i < n
        invariant
            cs@ == s@,
            n == s@.len(),
            n <= 5,
            from <= i <= n,
            body == s@.skip(from as int),
            all_digits(body) ==> number_in(s@) == Some(digits_value(body)),
            !all_digits(body) ==> number_in(s@) is None,
            all_digits(body.take(i - from)),
            value == digits_value(body.take(i - from)),
            i == 0 ==> value == 0,
            i == 1 ==> value <= 9,
            i == 2 ==> value <= 99,
            i == 3 ==> value <= 999,
            i == 4 ==> value <= 9999,
            i == 5 ==> value <= 99999,
        decreases n - i,
    {
        let c: char = cs[i];
        if !('0' <= c && c <= '9') {
            assert(body[i - from] == c);
            return None;
        }
        proof {
            let front = body.take(i - from);
            let more = body.take(i + 1 - from);
            assert(more.drop_last() =~= front);
            assert(more =~= front.push(c));
        }
        value = value * 10 + (c as u32 - 48);
        i = i + 1;
    }
    assert(body.take(n - from) =~= body);
    Some(value)
}

/// How many bytes a character takes in UTF-8.
fn width_of(c: char) -> (r: usize)
    ensures
        r == utf8_width(c),
        1 <= r <= 4,
{
    let u: u32 = c as u32;
    if u <= 0x7f {
        1
    } else if u <= 0x7ff {
        2
    } else if u <= 0xffff {
        3
    } else {
        4
    }
}

/// The catalogue number in the second line of elements.
pub fn read_catalog_number(line2: &str) -> (r: Option<u32>)
    requires
        "2 "@.is_prefix_of(line2@),
    ensures
        match r {
            Some(n) => catalog_number(line2@) == Some(n as nat),
            None => catalog_number(line2@) is None,
        },
{
    proof {
        reveal_strlit("2 ");
    }
    let cs: Vec<char> = chars_of(line2);
    let n: usize = cs.len();
    let ghost tail = line2@.skip(2);
    let mut left: usize = 5;
    let mut i: usize = 2;
    assert(tail.skip(0) =~= tail);
    assert(Seq::<char>::empty() + front_bytes(tail, 5).unwrap_or(Seq::empty()) =~= front_bytes(
        tail,
        5,
    ).unwrap_or(Seq::empty()));
    assert(tail.take(0) =~= Seq::<char>::empty());
    while left > 0
        invariant
            cs@ == line2@,
            n == line2@.len(),
            tail == line2@.skip(2),
            2 <= i <= n,
            left <= 5,
            i - 2 + left <= 5,
            front_bytes(tail, 5) is Some == front_bytes(tail.skip(i - 2), left as nat) is Some,
            front_bytes(tail, 5) is Some ==> front_bytes(tail, 5)->0 == tail.take(i - 2)
                + front_bytes(tail.skip(i - 2), left as nat)->0,
        decreases left,
    {
        if i == n {
            return None;
        }
        let w: usize = width_of(cs[i]);
        if w > left {
            return None;
        }
        proof {
            assert(tail.skip(i - 2).drop_first() =~= tail.skip(i - 1));
            if front_bytes(tail, 5) is Some {
                let rest = front_bytes(tail.skip(i - 1), (left - w) as nat)->0;
                assert(tail.take(i - 2) + (seq![tail[i - 2]] + rest) =~= tail.take(i - 1) + rest);
            }
        }
        left = left - w;
        i = i + 1;
    }
    assert(tail.take(i - 2) + Seq::<char>::empty() =~= tail.take(i - 2));
    let field: &str = line2.substring_char(2, i);
    assert(field@ =~= tail.take(i - 2));
    let core: &str = trim(field);
    proof {
        lemma_trimmed_len(field@);
    }
    read_number(core)
}

/// Trimming makes no text longer.
proof fn lemma_trimmed_len(s: Seq<char>)
    ensures
        trimmed(s).len() <= s.len(),
{
    lemma_trimmed_start_len(s);
    lemma_trimmed_end_len(crate::text::trimmed_start(s));
}

proof fn lemma_trimmed_start_len(s: Seq<char>)
    ensures
        crate::text::trimmed_start(s).len() <= s.len(),
    decreases s.len(),
{
    if s.len() > 0 {
        lemma_trimmed_start_len(s.drop_first());
    }
}

proof fn lemma_trimmed_end_len(s: Seq<char>)
    ensures
        crate::text::trimmed_end(s).len() <= s.len(),
    decreases s.len(),
{
    if s.len() > 0 {
        lemma_trimmed_end_len(s.drop_last());
    }
}

/// Adds the elements in a three-line text to a table keyed by catalogue number.
pub fn parse_3line_tles(text: &str, out_map: &mut HashMap<u32, (String, String, String)>)
    ensures
        tle_map(final(out_map)@) == with_elements(tle_map(old(out_map)@), filled_lines(text@), 0),
{
    broadcast use vstd::std_specs::hash::group_hash_axioms;

    let lines: Vec<&str> = trimmed_lines(text);
    let n: usize = lines.len();
    let ghost all = views(lines@);
    let mut i: usize = 0;
    while i < n && n - i > 2
        invariant
            all == views(lines@),
            n == lines@.len(),
            i <= n,
            with_elements(tle_map(old(out_map)@), all, 0) == with_elements(
                tle_map(out_map@),
                all,
                i as int,
            ),
        decreases n - i,
    {
        assert(all[i as int] == lines@[i as int]@);
        assert(all[i + 1] == lines@[i + 1]@);
        assert(all[i + 2] == lines@[i + 2]@);
        if starts_with(lines[i + 1], "1 ") && starts_with(lines[i + 2], "2 ") {
            if let Some(number) = read_catalog_number(lines[i + 2]) {
                let ghost before = out_map@;
                let entry: (String, String, String) = (
                    lines[i].to_owned(),
                    lines[i + 1].to_owned(),
                    lines[i + 2].to_owned(),
                );
                let ghost t = entry;
                out_map.insert(number, entry);
                assert(tle_map(out_map@) =~= tle_map(before).insert(
                    number,
                    (t.0@, t.1@, t.2@),
                ));
            }
            i = i + 3;
        } else {
            i = i + 1;
        }
    }
}

/// A satellite to follow: its name, catalogue number, frequency in Hz and signal type.
pub type Target = (String, u32, u64, SignalType);

/// The same, as plain values.
pub type TargetText = (Seq<char>, u32, u64, SignalType);

/// What a target holds.
pub open spec fn target_text(t: Target) -> TargetText {
    (t.0@, t.1, t.2, t.3)
}

/// What a list of targets holds.
pub open spec fn target_texts(v: Seq<Target>) -> Seq<TargetText> {
    Seq::new(v.len(), |i: int| target_text(v[i]))
}

/// The Meteor-M satellites.
pub open spec fn meteor_targets() -> Seq<TargetText> {
    seq![
        ("Meteor-M N2-3"@, 57166u32, 137_900_000u64, SignalType::Lrpt),
        ("Meteor-M N2-4"@, 59051u32, 137_900_000u64, SignalType::Lrpt),
    ]
}

/// The NOAA satellites.
pub open spec fn noaa_targets() -> Seq<TargetText> {
    seq![
        ("NOAA 15"@, 25338u32, 137_620_000u64, SignalType::Apt),
        ("NOAA 18"@, 28654u32, 137_912_500u64, SignalType::Apt),
        ("NOAA 19"@, 33591u32, 137_100_000u64, SignalType::Apt),
    ]
}

/// The satellites that the settings ask for, in the order Meteor-M, NOAA, ISS, CubeSats.
pub open spec fn wanted_targets(config: SatellitesConfig) -> Seq<TargetText> {
    (if config.meteor_on() { meteor_targets() } else { Seq::empty() })
    + (if config.noaa_on() { noaa_targets() } else { Seq::empty() })
    + (if config.iss.enabled {
        seq![("ISS (ZARYA)"@, config.iss.norad_id, config.iss.freq, SignalType::IssSstv)]
    } else {
        Seq::empty()
    })
    + (if config.cubesats.enabled {
        Seq::new(
            config.cubesats.targets@.len(),
            |i: int|
                {
                    let t = config.cubesats.targets@[i];
                    (t.name@, t.norad_id, t.freq, signal_named(unicode_lower(t.kind@)))
                },
        )
    } else {
        Seq::empty()
    })
}

/// Adds a target at the end.
fn push_target(v: &mut Vec<Target>, name: &str, norad_id: u32, freq: u64, signal: SignalType)
    ensures
        target_texts(final(v)@) == target_texts(old(v)@).push((name@, norad_id, freq, signal)),
{
    v.push((name.to_owned(), norad_id, freq, signal));
    assert(target_texts(v@) =~= target_texts(old(v)@).push((name@, norad_id, freq, signal)));
}

/// The satellites that the settings ask for.
pub fn satellite_targets(config: &SatellitesConfig) -> (r: Vec<Target>)
    ensures
        target_texts(r@) == wanted_targets(*config),
{
    let mut r: Vec<Target> = Vec::new();
    assert(target_texts(r@) =~= Seq::empty());
    if config.is_meteor_enabled() {
        push_target(&mut r, "Meteor-M N2-3", 57166, 137_900_000, SignalType::Lrpt);
        push_target(&mut r, "Meteor-M N2-4", 59051, 137_900_000, SignalType::Lrpt);
    }
    let ghost a = if config.meteor_on() { meteor_targets() } else { Seq::empty() };
    assert(target_texts(r@) =~= a);
    if config.is_noaa_enabled() {
        push_target(&mut r, "NOAA 15", 25338, 137_620_000, SignalType::Apt);
        push_target(&mut r, "NOAA 18", 28654, 137_912_500, SignalType::Apt);
        push_target(&mut r, "NOAA 19", 33591, 137_100_000, SignalType::Apt);
    }
    let ghost b = if config.noaa_on() { noaa_targets() } else { Seq::empty() };
    assert(target_texts(r@) =~= a + b);
    if config.iss.enabled {
        push_target(
            &mut r,
            "ISS (ZARYA)",
            config.iss.norad_id,
            config.iss.freq,
            SignalType::IssSstv,
        );
    }
    let ghost fixed = target_texts(r@);
    if config.cubesats.enabled {
        let mut i: usize = 0;
        while i < config.cubesats.targets.len()
            invariant
                i <= config.cubesats.targets@.len(),
                target_texts(r@) == fixed + Seq::new(
                    i as nat,
                    |k: int|
                        {
                            let t = config.cubesats.targets@[k];
                            (t.name@, t.norad_id, t.freq, signal_named(unicode_lower(t.kind@)))
                        },
                ),
            decreases config.cubesats.targets@.len() - i,
        {
            let signal: SignalType = SignalType::from_str_type(
                config.cubesats.targets[i].kind.as_str(),
            );
            push_target(
                &mut r,
                config.cubesats.targets[i].name.as_str(),
                config.cubesats.targets[i].norad_id,
                config.cubesats.targets[i].freq,
                signal,
            );
            i = i + 1;
            assert(target_texts(r@) =~= fixed + Seq::new(
                i as nat,
                |k: int|
                    {
                        let t = config.cubesats.targets@[k];
                        (t.name@, t.norad_id, t.freq, signal_named(unicode_lower(t.kind@)))
                    },
            ));
        }
    }
    assert(target_texts(r@) =~= wanted_targets(*config));
    r
}

/// Where the elements of the weather satellites are.
pub open spec fn weather_url() -> Seq<char> {
    "https://celestrak.org/NORAD/elements/gp.php?GROUP=weather&FORMAT=tle"@
}

/// Where the elements of the amateur radio satellites are.
pub open spec fn amateur_url() -> Seq<char> {
    "https://celestrak.org/NORAD/elements/gp.php?GROUP=amateur&FORMAT=tle"@
}

/// The group queries that the settings ask for. Without a target there is none.
pub open spec fn wanted_groups(config: SatellitesConfig) -> Seq<Seq<char>> {
    if wanted_targets(config).len() == 0 {
        Seq::empty()
    } else {
        (if config.meteor_on() || config.noaa_on() { seq![weather_url()] } else { Seq::empty() })
        + (if config.cubesats.enabled || config.iss.enabled {
            seq![amateur_url()]
        } else {
            Seq::empty()
        })
    }
}

/// The group queries to make, in order.
pub fn group_queries(config: &SatellitesConfig) -> (r: Vec<&'static str>)
    ensures
        views(r@) == wanted_groups(*config),
{
    let targets: Vec<Target> = satellite_targets(config);
    assert(target_texts(targets@).len() == targets@.len());
    let mut r: Vec<&'static str> = Vec::new();
    if targets.is_empty() {
        assert(views(r@) =~= Seq::empty());
        return r;
    }
    if config.is_meteor_enabled() || config.is_noaa_enabled() {
        r.push("https://celestrak.org/NORAD/elements/gp.php?GROUP=weather&FORMAT=tle");
    }
    if config.cubesats.enabled || config.iss.enabled {
        r.push("https://celestrak.org/NORAD/elements/gp.php?GROUP=amateur&FORMAT=tle");
    }
    assert(views(r@) =~= wanted_groups(*config));
    r
}

/// The query for the elements of one satellite.
pub fn catalog_query(norad_id: u32) -> (r: String)
    ensures
        r@ == "https://celestrak.org/NORAD/elements/gp.php?CATNR="@ + digits(norad_id as nat)
            + "&FORMAT=tle"@,
{
    let mut r: String = "https://celestrak.org/NORAD/elements/gp.php?CATNR=".to_owned();
    r.append(decimal(norad_id as u64).as_str());
    r.append("&FORMAT=tle");
    r
}

/// The two lines of elements in the reply to a query for one satellite.
pub open spec fn reply_elements(text: Seq<char>) -> Option<(Seq<char>, Seq<char>)> {
    let lines = filled_lines(text);
    if lines.len() >= 3 && tle_at(lines, 0) {
        Some((lines[1], lines[2]))
    } else {
        None
    }
}

/// The elements found for a target: in the table, else in the reply to the query for it.
pub open spec fn elements_for(
    target: TargetText,
    db: Map<u32, TleText>,
    reply: Option<Seq<char>>,
) -> Option<(Seq<char>, Seq<char>)> {
    if db.dom().contains(target.1) {
        Some((db[target.1].1, db[target.1].2))
    } else {
        match reply {
            Some(text) => reply_elements(text),
            None => None,
        }
    }
}

/// A satellite with its elements, as plain values.
pub struct InfoText {
    pub target: TargetText,
    pub line1: Seq<char>,
    pub line2: Seq<char>,
}

/// What a list of satellites holds.
pub open spec fn info_texts(v: Seq<SatelliteInfo>) -> Seq<InfoText> {
    Seq::new(
        v.len(),
        |i: int|
            InfoText {
                target: (v[i].name@, v[i].norad_id, v[i].frequency_hz, v[i].signal_type),
                line1: v[i].line1@,
                line2: v[i].line2@,
            },
    )
}

/// The first `n` targets for which elements were found, each with them.
pub open spec fn found_infos(
    targets: Seq<TargetText>,
    db: Map<u32, TleText>,
    replies: Seq<Option<Seq<char>>>,
    n: nat,
) -> Seq<InfoText>
    decreases n,
{
    if n == 0 {
        Seq::empty()
    } else {
        let before = found_infos(targets, db, replies, (n - 1) as nat);
        let t = targets[n - 1];
        match elements_for(t, db, replies[n - 1]) {
            Some(lines) => before.push(
                InfoText { target: t, line1: lines.0, line2: lines.1 },
            ),
            None => before,
        }
    }
}

/// What a list of replies holds.
pub open spec fn reply_texts(v: Seq<Option<String>>) -> Seq<Option<Seq<char>>> {
    Seq::new(v.len(), |i: int| opt_text(v[i]))
}

/// The two lines of elements in the reply to a query for one satellite.
pub fn elements_in_reply(text: &str) -> (r: Option<(String, String)>)
    ensures
        match r {
            Some(lines) => reply_elements(text@) == Some((lines.0@, lines.1@)),
            None => reply_elements(text@) is None,
        },
{
    let lines: Vec<&str> = trimmed_lines(text);
    let ghost all = views(lines@);
    assert(all.len() == lines@.len());
    if lines.len() < 3 {
        return None;
    }
    assert(all[1] == lines@[1]@ && all[2] == lines@[2]@);
    if starts_with(lines[1], "1 ") && starts_with(lines[2], "2 ") {
        Some((lines[1].to_owned(), lines[2].to_owned()))
    } else {
        None
    }
}

/// Whether the elements of a target have to be asked for on their own: the table lacks them.
pub fn needs_query(target: &Target, db: &HashMap<u32, (String, String, String)>) -> (r: bool)
    ensures
        r == !tle_map(db@).dom().contains(target.1),
{
    broadcast use vstd::std_specs::hash::group_hash_axioms;

    !db.contains_key(&target.1)
}

/// The satellites for which elements were found. `replies` holds for each target the reply to
/// the query for it, where it was asked for and answered.
pub fn build_satellite_infos(
    targets: &Vec<Target>,
    db: &HashMap<u32, (String, String, String)>,
    replies: &Vec<Option<String>>,
) -> (r: Vec<SatelliteInfo>)
    requires
        replies@.len() == targets@.len(),
    ensures
        info_texts(r@) == found_infos(
            target_texts(targets@),
            tle_map(db@),
            reply_texts(replies@),
            targets@.len(),
        ),
{
    broadcast use vstd::std_specs::hash::group_hash_axioms;

    let mut r: Vec<SatelliteInfo> = Vec::new();
    let mut i: usize = 0;
    assert(info_texts(r@) =~= Seq::empty());
    while i < targets.len()
        invariant
            replies@.len() == targets@.len(),
            i <= targets@.len(),
            info_texts(r@) == found_infos(
                target_texts(targets@),
                tle_map(db@),
                reply_texts(replies@),
                i as nat,
            ),
        decreases targets@.len() - i,
    {
        let ghost before = info_texts(r@);
        let target: &Target = &targets[i];
        assert(target_texts(targets@)[i as int] == target_text(*target));
        assert(reply_texts(replies@)[i as int] == opt_text(replies@[i as int]));
        let lines: Option<(String, String)> = match db.get(&target.1) {
            Some(entry) => Some((entry.1.as_str().to_owned(), entry.2.as_str().to_owned())),
            None => match &replies[i] {
                Some(text) => elements_in_reply(text.as_str()),
                None => None,
            },
        };
        if let Some((line1, line2)) = lines {
            let info: SatelliteInfo = SatelliteInfo {
                name: target.0.as_str().to_owned(),
                norad_id: target.1,
                frequency_hz: target.2,
                signal_type: target.3,
                line1,
                line2,
            };
            let ghost added = InfoText {
                target: target_text(*target),
                line1: info.line1@,
                line2: info.line2@,
            };
            r.push(info);
            assert(info_texts(r@) =~= before.push(added));
        }
        i = i + 1;
    }
    r
}

/// The table of the elements in the first `n` group texts that were received.
pub open spec fn indexed(groups: Seq<Option<String>>, n: nat) -> Map<u32, TleText>
    decreases n,
{
    if n == 0 {
        Map::empty()
    } else {
        let before = indexed(groups, (n - 1) as nat);
        match groups[n - 1] {
            Some(text) => with_elements(before, filled_lines(text@), 0),
            None => before,
        }
    }
}

/// The table of the elements in the group texts that were received.
pub fn index_elements(groups: &Vec<Option<String>>) -> (r: HashMap<
    u32,
    (String, String, String),
>)
    ensures
        tle_map(r@) == indexed(groups@, groups@.len()),
{
    broadcast use vstd::std_specs::hash::group_hash_axioms;

    let mut db: HashMap<u32, (String, String, String)> = HashMap::new();
    let mut i: usize = 0;
    assert(tle_map(db@) =~= Map::empty());
    while i < groups.len()
        invariant
            i <= groups@.len(),
            tle_map(db@) == indexed(groups@, i as nat),
        decreases groups@.len() - i,
    {
        if let Some(text) = &groups[i] {
            parse_3line_tles(text.as_str(), &mut db);
        }
        i = i + 1;
    }
    db
}

/// The satellites to follow, with their elements. `groups` holds the replies to the group
/// queries, in their order, and `replies` for each satellite the reply to the query for it.
pub fn fetch_all_tles(
    config: &SatellitesConfig,
    groups: &Vec<Option<String>>,
    replies: &Vec<Option<String>>,
) -> (r: Vec<SatelliteInfo>)
    requires
        replies@.len() == wanted_targets(*config).len(),
    ensures
        info_texts(r@) == found_infos(
            wanted_targets(*config),
            indexed(groups@, groups@.len()),
            reply_texts(replies@),
            wanted_targets(*config).len(),
        ),
{
    let targets: Vec<Target> = satellite_targets(config);
    assert(target_texts(targets@).len() == targets@.len());
    let db: HashMap<u32, (String, String, String)> = index_elements(groups);
    build_satellite_infos(&targets, &db, replies)
}

/// For a satellite in the table the reply to the query for it does not matter.
pub proof fn law_table_comes_first(
    target: TargetText,
    db: Map<u32, TleText>,
    a: Option<Seq<char>>,
    b: Option<Seq<char>>,
)
    requires
        db.dom().contains(target.1),
    ensures
        elements_for(target, db, a) == elements_for(target, db, b),
        elements_for(target, db, a) is Some,
{
}

/// Reading more elements loses none: every catalogue number that the table knew it still knows.
pub proof fn law_elements_are_kept(db: Map<u32, TleText>, lines: Seq<Seq<char>>, i: int, n: u32)
    requires
        db.dom().contains(n),
    ensures
        with_elements(db, lines, i).dom().contains(n),
    decreases lines.len() - i,
{
    if 0 <= i && i + 2 < lines.len() {
        if tle_at(lines, i) {
            let more = match catalog_number(lines[i + 2]) {
                Some(m) => db.insert(m as u32, (lines[i], lines[i + 1], lines[i + 2])),
                None => db,
            };
            law_elements_are_kept(more, lines, i + 3, n);
        } else {
            law_elements_are_kept(db, lines, i + 1, n);
        }
    }
}

/// A name with two lines of elements is found again under the catalogue number in its second line,
/// whatever stood there before; nothing else changes.
pub proof fn law_elements_read_back(
    db: Map<u32, TleText>,
    name: Seq<char>,
    line1: Seq<char>,
    line2: Seq<char>,
    n: nat,
)
    requires
        "1 "@.is_prefix_of(line1),
        "2 "@.is_prefix_of(line2),
        catalog_number(line2) == Some(n),
        n <= u32::MAX,
    ensures
        with_elements(db, seq![name, line1, line2], 0) == db.insert(
            n as u32,
            (name, line1, line2),
        ),
{
    let lines = seq![name, line1, line2];
    assert(tle_at(lines, 0));
    reveal_with_fuel(with_elements, 2);
}

/// What a text adds to a table does not depend on the table.
proof fn lemma_with_elements_overrides(db: Map<u32, TleText>, lines: Seq<Seq<char>>, i: int)
    ensures
        with_elements(db, lines, i) == db.union_prefer_right(
            with_elements(Map::empty(), lines, i),
        ),
    decreases lines.len() - i,
{
    let none = Map::<u32, TleText>::empty();
    if i < 0 || i + 2 >= lines.len() {
        assert(db.union_prefer_right(none) =~= db);
    } else if tle_at(lines, i) {
        match catalog_number(lines[i + 2]) {
            Some(n) => {
                let entry = (lines[i], lines[i + 1], lines[i + 2]);
                let rest = with_elements(none, lines, i + 3);
                lemma_with_elements_overrides(db.insert(n as u32, entry), lines, i + 3);
                lemma_with_elements_overrides(none.insert(n as u32, entry), lines, i + 3);
                assert(db.insert(n as u32, entry).union_prefer_right(rest)
                    =~= db.union_prefer_right(none.insert(n as u32, entry).union_prefer_right(rest)));
            },
            None => lemma_with_elements_overrides(db, lines, i + 3),
        }
    } else {
        lemma_with_elements_overrides(db, lines, i + 1);
    }
}

/// Reading the same text a second time changes nothing.
pub proof fn law_reading_twice_changes_nothing(db: Map<u32, TleText>, text: Seq<char>)
    ensures
        ({
            let once = with_elements(db, filled_lines(text), 0);
            with_elements(once, filled_lines(text), 0) == once
        }),
{
    let lines = filled_lines(text);
    let added = with_elements(Map::empty(), lines, 0);
    lemma_with_elements_overrides(db, lines, 0);
    lemma_with_elements_overrides(with_elements(db, lines, 0), lines, 0);
    assert(db.union_prefer_right(added).union_prefer_right(added) =~= db.union_prefer_right(added));
}

/// A text ends at the end of a line, or is empty.
pub open spec fn ends_a_line(s: Seq<char>) -> bool {
    s.len() == 0 || s.last() == '\n'
}

/// A text begins with the end of a line, or is empty.
pub open spec fn begins_with_line_end(s: Seq<char>) -> bool {
    s.len() == 0 || s[0] == '\n'
}

/// The piece behind the end of a line is empty, and so is the one before it.
proof fn lemma_edge_pieces(s: Seq<char>)
    ensures
        pieces(s, '\n').len() > 0,
        ends_a_line(s) ==> pieces(s, '\n').last().len() == 0,
        begins_with_line_end(s) ==> pieces(s, '\n')[0].len() == 0,
        s.len() > 0 && begins_with_line_end(s) ==> pieces(s, '\n').len() > 1,
    decreases s.len(),
{
    if s.len() > 0 {
        lemma_edge_pieces(s.drop_last());
        if s.len() > 1 {
            assert(s.drop_last()[0] == s[0]);
        }
    }
}

/// The pieces of a text in which `line` is a line of its own.
proof fn lemma_line_between(before: Seq<char>, line: Seq<char>, after: Seq<char>)
    requires
        ends_a_line(before),
        begins_with_line_end(after),
        !line.contains('\n'),
    ensures
        pieces(before + line + after, '\n') == pieces(before, '\n').drop_last() + seq![line]
            + pieces(after, '\n').drop_first(),
{
    lemma_edge_pieces(before);
    lemma_edge_pieces(after);
    lemma_one_piece(line, '\n');
    lemma_pieces_add(before, line, '\n');
    lemma_pieces_add(before + line, after, '\n');
    let head = pieces(before, '\n').drop_last();
    let none = Seq::<char>::empty();
    assert(pieces(before, '\n').last() =~= none);
    assert(pieces(after, '\n')[0] =~= none);
    assert(none + line =~= line);
    assert(line + none =~= line);
    assert(pieces(before + line, '\n') =~= head.push(line));
    assert(head.push(line).drop_last() =~= head);
    assert(pieces(before + line + after, '\n') =~= head + seq![line] + pieces(
        after,
        '\n',
    ).drop_first());
}

/// White space at the beginning or at the end of a line does not matter: where `front` or `back`
/// is all white space, so that `w` stands at an end of the line, the text with `w` gives the same
/// table as the text without.
pub proof fn law_spaces_at_line_ends_do_not_matter(
    db: Map<u32, TleText>,
    before: Seq<char>,
    front: Seq<char>,
    w: Seq<char>,
    back: Seq<char>,
    after: Seq<char>,
)
    requires
        ends_a_line(before),
        begins_with_line_end(after),
        !front.contains('\n'),
        !w.contains('\n'),
        !back.contains('\n'),
        blank(w),
        blank(front) || blank(back),
    ensures
        with_elements(db, filled_lines(before + (front + w + back) + after), 0) == with_elements(
            db,
            filled_lines(before + (front + back) + after),
            0,
        ),
{
    let cut = |line: Seq<char>| trimmed(line);
    let spaced = front + w + back;
    let plain = front + back;
    lemma_not_in_sum(front, w, '\n');
    lemma_not_in_sum(front + w, back, '\n');
    lemma_not_in_sum(front, back, '\n');
    lemma_line_between(before, spaced, after);
    lemma_line_between(before, plain, after);
    lemma_filled_lines(before + spaced + after);
    lemma_filled_lines(before + plain + after);
    if blank(back) {
        assert(spaced =~= front + (w + back));
        lemma_trimmed_back(front, w + back);
        lemma_trimmed_back(front, back);
    } else {
        lemma_trimmed_front(front + w, back);
        lemma_trimmed_front(front, back);
    }
    assert(pieces(before + spaced + after, '\n').map_values(cut) =~= pieces(
        before + plain + after,
        '\n',
    ).map_values(cut));
}

/// A character that is in neither of two texts is not in both together.
proof fn lemma_not_in_sum(a: Seq<char>, b: Seq<char>, c: char)
    requires
        !a.contains(c),
        !b.contains(c),
    ensures
        !(a + b).contains(c),
{
    if (a + b).contains(c) {
        let k = choose|k: int| 0 <= k < (a + b).len() && (a + b)[k] == c;
        if k < a.len() {
            assert(a[k] == c);
        } else {
            assert(b[k - a.len()] == c);
        }
    }
}

/// A line end in front of a text is an empty piece in front of its pieces.
proof fn lemma_line_end_in_front(after: Seq<char>)
    ensures
        pieces(seq!['\n'] + after, '\n') == seq![Seq::<char>::empty()] + pieces(after, '\n'),
{
    let none = Seq::<char>::empty();
    let end = seq!['\n'];
    let tail = pieces(after, '\n');
    crate::text::lemma_pieces_nonempty(after, '\n');
    assert(end.drop_last() =~= none);
    assert(pieces(none, '\n') =~= seq![none]);
    assert(pieces(end, '\n') =~= seq![none, none]);
    lemma_pieces_add(end, after, '\n');
    assert(none + tail[0] =~= tail[0]);
    assert(pieces(end + after, '\n') =~= seq![none] + tail);
}

/// The pieces of a text with a line `w` between two lines, and those of the text without it.
proof fn lemma_line_inserted(before: Seq<char>, w: Seq<char>, after: Seq<char>)
    requires
        ends_a_line(before),
        !w.contains('\n'),
    ensures
        pieces(before + w + seq!['\n'] + after, '\n') == pieces(before, '\n').drop_last() + seq![w]
            + pieces(after, '\n'),
        pieces(before + after, '\n') == pieces(before, '\n').drop_last() + pieces(after, '\n'),
{
    let none = Seq::<char>::empty();
    let end = seq!['\n'];
    let tail = pieces(after, '\n');
    let head = pieces(before, '\n').drop_last();
    lemma_edge_pieces(before);
    crate::text::lemma_pieces_nonempty(after, '\n');
    assert(pieces(before, '\n').last() =~= none);
    lemma_line_end_in_front(after);
    assert((end + after)[0] == '\n');
    lemma_line_between(before, w, end + after);
    assert(before + w + end + after =~= before + w + (end + after));
    assert((seq![none] + tail).drop_first() =~= tail);
    lemma_pieces_add(before, after, '\n');
    assert(none + tail[0] =~= tail[0]);
    assert(pieces(before + after, '\n') =~= head + tail);
}

/// An empty text among others is left out with the blank ones.
proof fn lemma_empty_left_out(h: Seq<Seq<char>>, t: Seq<Seq<char>>)
    ensures
        (h.push(Seq::empty()) + t).filter(|line: Seq<char>| line.len() > 0) == (h + t).filter(
            |line: Seq<char>| line.len() > 0,
        ),
{
    let keep = |line: Seq<char>| line.len() > 0;
    Seq::filter_distributes_over_add(h.push(Seq::empty()), t, keep);
    Seq::filter_distributes_over_add(h, t, keep);
    crate::text::lemma_filter_push(h, Seq::empty(), keep);
}

/// Blank lines do not matter: the text with a blank line between two lines gives the same table as
/// the text without.
pub proof fn law_blank_lines_do_not_matter(
    db: Map<u32, TleText>,
    before: Seq<char>,
    w: Seq<char>,
    after: Seq<char>,
)
    requires
        ends_a_line(before),
        !w.contains('\n'),
        blank(w),
    ensures
        with_elements(db, filled_lines(before + w + seq!['\n'] + after), 0) == with_elements(
            db,
            filled_lines(before + after),
            0,
        ),
{
    let cut = |line: Seq<char>| trimmed(line);
    let none = Seq::<char>::empty();
    let head = pieces(before, '\n').drop_last();
    let tail = pieces(after, '\n');
    lemma_line_inserted(before, w, after);
    lemma_filled_lines(before + w + seq!['\n'] + after);
    lemma_filled_lines(before + after);
    assert(trimmed(w) == none) by {
        lemma_trimmed_front(w, none);
        assert(w + none =~= w);
        assert(trimmed(none) =~= none);
    }
    let h = head.map_values(cut);
    let t = tail.map_values(cut);
    assert((head + seq![w] + tail).map_values(cut) =~= h.push(none) + t);
    assert((head + tail).map_values(cut) =~= h + t);
    lemma_empty_left_out(h, t);
}

/// The satellites whose elements the table holds.
pub fn build_satellite_infos_from_db(
    targets: &Vec<Target>,
    db: &HashMap<u32, (String, String, String)>,
) -> (r: Vec<SatelliteInfo>)
    ensures
        info_texts(r@) == found_infos(
            target_texts(targets@),
            tle_map(db@),
            Seq::new(targets@.len(), |i: int| None),
            targets@.len(),
        ),
{
    let mut replies: Vec<Option<String>> = Vec::new();
    while replies.len() < targets.len()
        invariant
            replies@.len() <= targets@.len(),
            forall|k: int| 0 <= k < replies@.len() ==> (#[trigger] replies@[k]) is None,
        decreases targets@.len() - replies@.len(),
    {
        replies.push(None);
    }
    assert(reply_texts(replies@) =~= Seq::new(targets@.len(), |i: int| None));
    build_satellite_infos(targets, db, &replies)
}

/// Plain characters take one byte each.
proof fn lemma_front_bytes_of_plain(s: Seq<char>, n: nat)
    requires
        n <= s.len(),
        forall|k: int| 0 <= k < n ==> (#[trigger] s[k]) as u32 <= 0x7f,
    ensures
        front_bytes(s, n) == Some(s.take(n as int)),
    decreases n,
{
    if n == 0 {
        assert(s.take(0) =~= Seq::empty());
    } else {
        let rest = s.drop_first();
        assert forall|k: int| 0 <= k < n - 1 implies (#[trigger] rest[k]) as u32 <= 0x7f by {
            assert(rest[k] == s[k + 1]);
        }
        lemma_front_bytes_of_plain(rest, (n - 1) as nat);
        assert(seq![s[0]] + rest.take(n - 1) =~= s.take(n as int));
    }
}

/// Digits have no white space to take off.
proof fn lemma_digits_are_trimmed(s: Seq<char>)
    requires
        all_digits(s),
    ensures
        trimmed(s) == s,
{
    if s.len() > 0 {
        assert(is_digit(s[0]));
        assert(is_digit(s[s.len() - 1]));
    }
}

/// The catalogue number is the one in columns 3 to 7 of the second line: five digits, or fewer with
/// spaces or zeros before them.
pub proof fn law_catalogue_number_is_in_its_columns(n: nat, rest: Seq<char>)
    requires
        n <= 99_999,
    ensures
        catalog_number("2 "@ + padded_digits(n, 5) + rest) == Some(n),
        catalog_number("2 "@ + right_aligned(digits(n), 5) + rest) == Some(n),
{
    reveal_strlit("2 ");
    law_padded_digits_read_back(n, 5);
    assert(pow10(5) == 100_000) by {
        reveal_with_fuel(pow10, 6);
    }
    let zeros = padded_digits(n, 5);
    let line = "2 "@ + zeros + rest;
    assert(line.skip(2) =~= zeros + rest);
    assert forall|k: int| 0 <= k < 5 implies (#[trigger] (zeros + rest)[k]) as u32 <= 0x7f by {
        assert(is_digit(zeros[k]));
    }
    lemma_front_bytes_of_plain(zeros + rest, 5);
    assert((zeros + rest).take(5) =~= zeros);
    lemma_digits_are_trimmed(zeros);
    assert(is_digit(zeros[0]));
    law_digits_read_back(n);
    let own = digits(n);
    lemma_few_digits(n, 5);
    let field = right_aligned(own, 5);
    let spaced = "2 "@ + field + rest;
    assert(spaced.skip(2) =~= field + rest);
    assert forall|k: int| 0 <= k < 5 implies (#[trigger] (field + rest)[k]) as u32 <= 0x7f by {
        if k >= 5 - own.len() {
            assert(is_digit(own[k - (5 - own.len())]));
        }
    }
    lemma_front_bytes_of_plain(field + rest, 5);
    assert((field + rest).take(5) =~= field);
    let blanks = spaces((5 - own.len()) as nat);
    assert(field =~= blanks + own);
    assert(blank(blanks));
    lemma_trimmed_front(blanks, own);
    lemma_digits_are_trimmed(own);
    assert(is_digit(own[0]));
}

/// A number below a power of ten has at most so many digits.
proof fn lemma_few_digits(n: nat, width: nat)
    requires
        n < pow10(width),
        width > 0,
    ensures
        digits(n).len() <= width,
    decreases width,
{
    if width > 1 && n >= 10 {
        assert(pow10(width) == 10 * pow10((width - 1) as nat));
        lemma_few_digits(n / 10, (width - 1) as nat);
    } else if n >= 10 {
        reveal_with_fuel(pow10, 2);
    }
}

/// Lines in front of where reading begins do not matter.
proof fn lemma_lines_in_front(
    db: Map<u32, TleText>,
    front: Seq<Seq<char>>,
    lines: Seq<Seq<char>>,
    i: int,
)
    requires
        0 <= i,
    ensures
        with_elements(db, front + lines, front.len() + i) == with_elements(db, lines, i),
    decreases lines.len() - i,
{
    let all = front + lines;
    let k = front.len() + i;
    if i + 2 < lines.len() {
        assert(all[k] == lines[i] && all[k + 1] == lines[i + 1] && all[k + 2] == lines[i + 2]);
        if tle_at(lines, i) {
            let more = match catalog_number(lines[i + 2]) {
                Some(n) => db.insert(n as u32, (lines[i], lines[i + 1], lines[i + 2])),
                None => db,
            };
            lemma_lines_in_front(more, front, lines, i + 3);
        } else {
            lemma_lines_in_front(db, front, lines, i + 1);
        }
    }
}

/// Every satellite in a text is read: the first three lines add theirs, and what follows is read
/// as if it stood alone. Later elements of the same satellite replace earlier ones.
pub proof fn law_texts_are_read_satellite_by_satellite(
    db: Map<u32, TleText>,
    name: Seq<char>,
    line1: Seq<char>,
    line2: Seq<char>,
    n: nat,
    rest: Seq<Seq<char>>,
)
    requires
        "1 "@.is_prefix_of(line1),
        "2 "@.is_prefix_of(line2),
        catalog_number(line2) == Some(n),
        n <= u32::MAX,
    ensures
        with_elements(db, seq![name, line1, line2] + rest, 0) == with_elements(
            db.insert(n as u32, (name, line1, line2)),
            rest,
            0,
        ),
{
    let front = seq![name, line1, line2];
    let all = front + rest;
    assert(all[0] == name && all[1] == line1 && all[2] == line2);
    lemma_lines_in_front(db.insert(n as u32, (name, line1, line2)), front, rest, 0);
}

/// A line that begins no elements is passed over, and spoils nothing behind it.
pub proof fn law_stray_lines_are_passed_over(
    db: Map<u32, TleText>,
    stray: Seq<char>,
    rest: Seq<Seq<char>>,
)
    requires
        rest.len() < 2 || !("1 "@.is_prefix_of(rest[0]) && "2 "@.is_prefix_of(rest[1])),
    ensures
        with_elements(db, seq![stray] + rest, 0) == with_elements(db, rest, 0),
{
    let all = seq![stray] + rest;
    if all.len() > 2 {
        assert(all[1] == rest[0] && all[2] == rest[1]);
    }
    lemma_lines_in_front(db, seq![stray], rest, 0);
}

/// Every target for which there are elements is followed with them, and nothing else is: those in
/// the table with the table's, the others with those of the reply to the query for them.
pub proof fn law_targets_with_elements_are_followed(
    targets: Seq<TargetText>,
    db: Map<u32, TleText>,
    replies: Seq<Option<Seq<char>>>,
    n: nat,
)
    requires
        n <= targets.len(),
        replies.len() == targets.len(),
    ensures
        forall|k: int|
            0 <= k < n && db.dom().contains((#[trigger] targets[k]).1) ==> found_infos(
                targets,
                db,
                replies,
                n,
            ).contains(
                (InfoText {
                    target: targets[k],
                    line1: db[targets[k].1].1,
                    line2: db[targets[k].1].2,
                }),
            ),
        forall|k: int|
            0 <= k < n && !db.dom().contains((#[trigger] targets[k]).1) && replies[k] is Some ==> (
            reply_elements(replies[k]->0) matches Some(lines) ==> found_infos(
                targets,
                db,
                replies,
                n,
            ).contains(
                (InfoText { target: targets[k], line1: lines.0, line2: lines.1 }),
            )),
        forall|j: int|
            0 <= j < found_infos(targets, db, replies, n).len() ==> exists|k: int|
                0 <= k < n && (#[trigger] found_infos(targets, db, replies, n)[j]).target
                    == #[trigger] targets[k] && (db.dom().contains(targets[k].1) || (replies[k]
                    is Some && reply_elements(replies[k]->0) is Some)),
        found_infos(targets, db, replies, n).len() <= n,
    decreases n,
{
    if n > 0 {
        let m = (n - 1) as nat;
        law_targets_with_elements_are_followed(targets, db, replies, m);
        let before = found_infos(targets, db, replies, m);
        let all = found_infos(targets, db, replies, n);
        assert forall|x: InfoText| #[trigger] before.contains(x) implies all.contains(x) by {
            let j = choose|j: int| 0 <= j < before.len() && before[j] == x;
            assert(all[j] == x);
        }
        if elements_for(targets[m as int], db, replies[m as int]) is Some {
            assert(all.contains(all[all.len() - 1]));
        }
        assert forall|j: int| 0 <= j < all.len() implies exists|k: int|
            0 <= k < n && (#[trigger] all[j]).target == #[trigger] targets[k] && (
            db.dom().contains(targets[k].1) || (replies[k] is Some && reply_elements(
                replies[k]->0,
            ) is Some)) by {
            if j < before.len() {
                assert(all[j] == before[j]);
                let k = choose|k: int|
                    0 <= k < m && (#[trigger] before[j]).target == #[trigger] targets[k] && (
                    db.dom().contains(targets[k].1) || (replies[k] is Some && reply_elements(
                        replies[k]->0,
                    ) is Some));
                assert(all[j].target == targets[k]);
            } else {
                assert(all[j].target == targets[m as int]);
            }
        }
    }
}

/// The satellites that are switched on are followed, each with its catalogue number, frequency and
/// signal, and no others: the two Meteor-M, the three NOAA, the station, and the CubeSats of the
/// settings.
pub proof fn law_what_is_switched_on_is_followed(config: SatellitesConfig)
    ensures
        ({
            let all = wanted_targets(config);
            let meteor = config.enable_meteor && config.meteor.enabled;
            let noaa = config.enable_noaa && config.noaa.enabled;
            &&& meteor ==> all.contains(
                ("Meteor-M N2-3"@, 57166u32, 137_900_000u64, SignalType::Lrpt),
            ) && all.contains(("Meteor-M N2-4"@, 59051u32, 137_900_000u64, SignalType::Lrpt))
            &&& noaa ==> all.contains(("NOAA 15"@, 25338u32, 137_620_000u64, SignalType::Apt))
                && all.contains(("NOAA 18"@, 28654u32, 137_912_500u64, SignalType::Apt))
                && all.contains(("NOAA 19"@, 33591u32, 137_100_000u64, SignalType::Apt))
            &&& config.iss.enabled ==> all.contains(
                ("ISS (ZARYA)"@, config.iss.norad_id, config.iss.freq, SignalType::IssSstv),
            )
            &&& config.cubesats.enabled ==> forall|i: int|
                0 <= i < config.cubesats.targets@.len() ==> {
                    let t = #[trigger] config.cubesats.targets@[i];
                    all.contains(
                        (t.name@, t.norad_id, t.freq, signal_named(unicode_lower(t.kind@))),
                    )
                }
            &&& all.len() == (if meteor {
                2int
            } else {
                0
            }) + (if noaa {
                3int
            } else {
                0
            }) + (if config.iss.enabled {
                1int
            } else {
                0
            }) + (if config.cubesats.enabled {
                config.cubesats.targets@.len() as int
            } else {
                0
            })
        }),
{
    let all = wanted_targets(config);
    let a: int = if config.meteor_on() {
        2
    } else {
        0
    };
    let b: int = a + if config.noaa_on() {
        3int
    } else {
        0
    };
    let c: int = b + if config.iss.enabled {
        1int
    } else {
        0
    };
    if config.meteor_on() {
        assert(all[0] == meteor_targets()[0] && all[1] == meteor_targets()[1]);
    }
    if config.noaa_on() {
        assert(all[a] == noaa_targets()[0] && all[a + 1] == noaa_targets()[1] && all[a + 2]
            == noaa_targets()[2]);
    }
    if config.iss.enabled {
        assert(all[b] == (
            "ISS (ZARYA)"@,
            config.iss.norad_id,
            config.iss.freq,
            SignalType::IssSstv,
        ));
    }
    if config.cubesats.enabled {
        assert forall|i: int| 0 <= i < config.cubesats.targets@.len() implies {
            let t = #[trigger] config.cubesats.targets@[i];
            all.contains((t.name@, t.norad_id, t.freq, signal_named(unicode_lower(t.kind@))))
        } by {
            let t = config.cubesats.targets@[i];
            assert(all[c + i] == (
                t.name@,
                t.norad_id,
                t.freq,
                signal_named(unicode_lower(t.kind@)),
            ));
        }
    }
}

/// The elements are fetched where they are: those of the weather satellites with the weather
/// group, those of the station and the CubeSats with the amateur group, and a group that nothing
/// is wanted of is not asked for.
pub proof fn law_groups_are_fetched_for_what_is_wanted(config: SatellitesConfig)
    ensures
        ({
            let groups = wanted_groups(config);
            let weather = config.meteor_on() || config.noaa_on();
            &&& weather <==> groups.contains(weather_url())
            &&& config.iss.enabled || (config.cubesats.enabled && (weather
                || config.cubesats.targets@.len() > 0)) <==> groups.contains(amateur_url())
            &&& groups.len() <= 2
            &&& has_text(weather_url(), "GROUP=weather"@)
            &&& has_text(amateur_url(), "GROUP=amateur"@)
        }),
{
    let groups = wanted_groups(config);
    law_what_is_switched_on_is_followed(config);
    reveal_strlit("https://celestrak.org/NORAD/elements/gp.php?GROUP=weather&FORMAT=tle");
    reveal_strlit("https://celestrak.org/NORAD/elements/gp.php?GROUP=amateur&FORMAT=tle");
    reveal_strlit("GROUP=weather");
    reveal_strlit("GROUP=amateur");
    assert(weather_url()[50] == 'w');
    assert(amateur_url()[50] == 'a');
    assert(weather_url().subrange(44, 57) =~= "GROUP=weather"@);
    assert(occurs_at(weather_url(), "GROUP=weather"@, 44));
    assert(amateur_url().subrange(44, 57) =~= "GROUP=amateur"@);
    assert(occurs_at(amateur_url(), "GROUP=amateur"@, 44));
    if wanted_targets(config).len() > 0 {
        if config.meteor_on() || config.noaa_on() {
            assert(groups[0] == weather_url());
            if config.cubesats.enabled || config.iss.enabled {
                assert(groups[1] == amateur_url());
            }
        } else if config.cubesats.enabled || config.iss.enabled {
            assert(groups[0] == amateur_url());
        }
    }
}

/// The reply on one satellite holds its elements in its second and third line, where these begin
/// as elements do; any other reply holds none.
pub proof fn law_replies_hold_elements(text: Seq<char>)
    ensures
        ({
            let lines = filled_lines(text);
            let whole = lines.len() >= 3 && "1 "@.is_prefix_of(lines[1]) && "2 "@.is_prefix_of(
                lines[2],
            );
            &&& whole ==> reply_elements(text) == Some((lines[1], lines[2]))
            &&& !whole ==> reply_elements(text) is None
        }),
{
}

/// The table is made of all the texts that were received, one after the other; a text that was not
/// received takes nothing away.
pub proof fn law_all_groups_are_read(groups: Seq<Option<String>>, n: nat)
    requires
        n < groups.len(),
    ensures
        indexed(groups, 0) == Map::<u32, TleText>::empty(),
        groups[n as int] is None ==> indexed(groups, n + 1) == indexed(groups, n),
        groups[n as int] matches Some(text) ==> indexed(groups, n + 1) == with_elements(
            indexed(groups, n),
            filled_lines(text@),
            0,
        ),
{
}

/// The plain values of targets, satellites and the table are those that they hold.
pub proof fn law_satellites_are_what_they_say(
    targets: Seq<Target>,
    infos: Seq<SatelliteInfo>,
    table: Map<u32, (String, String, String)>,
    i: int,
    n: u32,
)
    ensures
        target_texts(targets).len() == targets.len(),
        0 <= i < targets.len() ==> target_texts(targets)[i] == (
            targets[i].0@,
            targets[i].1,
            targets[i].2,
            targets[i].3,
        ),
        info_texts(infos).len() == infos.len(),
        0 <= i < infos.len() ==> info_texts(infos)[i] == (InfoText {
            target: (
                infos[i].name@,
                infos[i].norad_id,
                infos[i].frequency_hz,
                infos[i].signal_type,
            ),
            line1: infos[i].line1@,
            line2: infos[i].line2@,
        }),
        tle_map(table).dom().contains(n) <==> table.dom().contains(n),
        table.dom().contains(n) ==> tle_map(table)[n] == (
            table[n].0@,
            table[n].1@,
            table[n].2@,
        ),
{
}

} // verus!
