//! Text: searching, trimming, splitting and writing numbers.

use vstd::prelude::*;

verus! {

/// Whether `c` has the Unicode property `White_Space`.
pub open spec fn is_space(c: char) -> bool {
    let u = c as u32;
    ||| 0x9 <= u <= 0xd
    ||| u == 0x20
    ||| u == 0x85
    ||| u == 0xa0
    ||| u == 0x1680
    ||| 0x2000 <= u <= 0x200a
    ||| u == 0x2028
    ||| u == 0x2029
    ||| u == 0x202f
    ||| u == 0x205f
    ||| u == 0x3000
}

/// `s` without its leading white space.
pub open spec fn trimmed_start(s: Seq<char>) -> Seq<char>
    decreases s.len(),
{
    if s.len() > 0 && is_space(s[0]) {
        trimmed_start(s.drop_first())
    } else {
        s
    }
}

/// `s` without its trailing white space.
pub open spec fn trimmed_end(s: Seq<char>) -> Seq<char>
    decreases s.len(),
{
    if s.len() > 0 && is_space(s.last()) {
        trimmed_end(s.drop_last())
    } else {
        s
    }
}

/// `s` without the white space at both ends.
pub open spec fn trimmed(s: Seq<char>) -> Seq<char> {
    trimmed_end(trimmed_start(s))
}

/// `needle` stands in `hay` at position `i`.
pub open spec fn occurs_at(hay: Seq<char>, needle: Seq<char>, i: int) -> bool {
    &&& 0 <= i
    &&& i + needle.len() <= hay.len()
    &&& hay.subrange(i, i + needle.len()) == needle
}

/// `needle` stands somewhere in `hay`.
pub open spec fn has_text(hay: Seq<char>, needle: Seq<char>) -> bool {
    exists|i: int| occurs_at(hay, needle, i)
}

/// A text holds each of its parts.
pub proof fn lemma_has_part(before: Seq<char>, part: Seq<char>, after: Seq<char>)
    ensures
        has_text(before + part + after, part),
{
    let all = before + part + after;
    let i = before.len() as int;
    assert(all.subrange(i, i + part.len()) =~= part);
    assert(occurs_at(all, part, i));
}

/// The pieces of `s` between the characters `sep`, empty ones included.
pub open spec fn pieces(s: Seq<char>, sep: char) -> Seq<Seq<char>>
    decreases s.len(),
{
    if s.len() == 0 {
        seq![Seq::<char>::empty()]
    } else {
        let before = pieces(s.drop_last(), sep);
        if s.last() == sep {
            before.push(Seq::empty())
        } else {
            before.update(before.len() - 1, before.last().push(s.last()))
        }
    }
}

/// `line` without a carriage return at its end.
pub open spec fn without_return(line: Seq<char>) -> Seq<char> {
    if line.len() > 0 && line.last() == '\r' {
        line.drop_last()
    } else {
        line
    }
}

/// The lines of `s`: a line ends at a line feed or at a carriage return with a line feed behind
/// it, and the last line need not be ended.
pub open spec fn text_lines(s: Seq<char>) -> Seq<Seq<char>> {
    let raw = pieces(s, '\n');
    let ended = Seq::new((raw.len() - 1) as nat, |i: int| without_return(raw[i]));
    if raw.last().len() == 0 {
        ended
    } else {
        ended.push(raw.last())
    }
}

/// The lines of `s` without the white space at their ends, blank ones left out.
pub open spec fn filled_lines(s: Seq<char>) -> Seq<Seq<char>> {
    text_lines(s).map_values(|line: Seq<char>| trimmed(line)).filter(
        |line: Seq<char>| line.len() > 0,
    )
}

/// The contents of a list of borrowed texts.
pub open spec fn views(v: Seq<&str>) -> Seq<Seq<char>> {
    Seq::new(v.len(), |i: int| v[i]@)
}

/// The contents of a list of texts.
pub open spec fn texts(v: Seq<String>) -> Seq<Seq<char>> {
    Seq::new(v.len(), |i: int| v[i]@)
}

/// The contents of a list of labelled texts.
pub open spec fn pairs(v: Seq<(String, String)>) -> Seq<(Seq<char>, Seq<char>)> {
    Seq::new(v.len(), |i: int| (v[i].0@, v[i].1@))
}

/// `parts` with `sep` between them.
pub open spec fn joined(parts: Seq<Seq<char>>, sep: Seq<char>) -> Seq<char>
    decreases parts.len(),
{
    if parts.len() == 0 {
        Seq::empty()
    } else if parts.len() == 1 {
        parts[0]
    } else {
        joined(parts.drop_last(), sep) + sep + parts.last()
    }
}

/// `s` without the characters `c` at its end.
pub open spec fn without_trailing(s: Seq<char>, c: char) -> Seq<char>
    decreases s.len(),
{
    if s.len() > 0 && s.last() == c {
        without_trailing(s.drop_last(), c)
    } else {
        s
    }
}

/// What an optional text holds.
pub open spec fn opt_text(v: Option<String>) -> Option<Seq<char>> {
    match v {
        Some(s) => Some(s@),
        None => None,
    }
}

/// The first `n` elements of `s`, or all where it has fewer.
pub open spec fn at_most<A>(s: Seq<A>, n: nat) -> Seq<A> {
    if s.len() <= n {
        s
    } else {
        s.take(n as int)
    }
}

/// The lower-case letter of an ASCII upper-case letter; any other character itself.
pub open spec fn ascii_lower_char(c: char) -> char {
    if 'A' <= c && c <= 'Z' {
        (c as u32 + 32) as char
    } else {
        c
    }
}

/// `s` with its ASCII letters in lower case.
pub open spec fn ascii_lower(s: Seq<char>) -> Seq<char> {
    s.map_values(|c: char| ascii_lower_char(c))
}

/// The path `s` in quotes, as the `Debug` of `std::path::Path` writes it.
pub uninterp spec fn debug_quoted(s: Seq<char>) -> Seq<char>;

/// `s` in lower case, as Unicode maps it.
pub uninterp spec fn unicode_lower(s: Seq<char>) -> Seq<char>;

/// The decimal digit with the value `d`.
pub open spec fn digit_char(d: int) -> char {
    (48 + d) as char
}

/// `c` is a decimal digit.
pub open spec fn is_digit(c: char) -> bool {
    '0' <= c && c <= '9'
}

/// All characters of `s` are decimal digits.
pub open spec fn all_digits(s: Seq<char>) -> bool {
    forall|i: int| 0 <= i < s.len() ==> is_digit(#[trigger] s[i])
}

/// The number that decimal digits write.
pub open spec fn digits_value(s: Seq<char>) -> nat
    decreases s.len(),
{
    if s.len() == 0 {
        0
    } else {
        10 * digits_value(s.drop_last()) + (s.last() as u32 - 48) as nat
    }
}

/// The decimal digits of `n`, without leading zeros; "0" for zero.
pub open spec fn digits(n: nat) -> Seq<char>
    decreases n,
{
    if n < 10 {
        seq![digit_char(n as int)]
    } else {
        digits(n / 10).push(digit_char((n % 10) as int))
    }
}

/// The lowest `width` decimal digits of `n`, with leading zeros.
pub open spec fn padded_digits(n: nat, width: nat) -> Seq<char>
    decreases width,
{
    if width == 0 {
        Seq::empty()
    } else {
        padded_digits(n / 10, (width - 1) as nat).push(digit_char((n % 10) as int))
    }
}

/// `n` in decimal, with a minus sign where it is negative.
pub open spec fn signed_digits(n: int) -> Seq<char> {
    if n < 0 {
        seq!['-'] + digits((-n) as nat)
    } else {
        digits(n as nat)
    }
}

/// `n` spaces.
pub open spec fn spaces(n: nat) -> Seq<char> {
    Seq::new(n, |i: int| ' ')
}

/// `s` with spaces behind it, up to `width` characters.
pub open spec fn left_aligned(s: Seq<char>, width: nat) -> Seq<char> {
    if s.len() < width {
        s + spaces((width - s.len()) as nat)
    } else {
        s
    }
}

/// `s` with spaces before it, up to `width` characters.
pub open spec fn right_aligned(s: Seq<char>, width: nat) -> Seq<char> {
    if s.len() < width {
        spaces((width - s.len()) as nat) + s
    } else {
        s
    }
}

/// `a` comes before `b`, by their first character that differs.
pub open spec fn text_before(a: Seq<char>, b: Seq<char>) -> bool
    decreases a.len(),
{
    if b.len() == 0 {
        false
    } else if a.len() == 0 {
        true
    } else if a[0] != b[0] {
        a[0] < b[0]
    } else {
        text_before(a.drop_first(), b.drop_first())
    }
}

/// Decides whether `c` has the Unicode property `White_Space`.
pub fn space(c: char) -> (r: bool)
    ensures
        r == is_space(c),
{
    let u: u32 = c as u32;
    (0x9 <= u && u <= 0xd) || u == 0x20 || u == 0x85 || u == 0xa0 || u == 0x1680 || (0x2000 <= u
        && u <= 0x200a) || u == 0x2028 || u == 0x2029 || u == 0x202f || u == 0x205f || u == 0x3000
}

/// The characters of `s`.
pub fn chars_of(s: &str) -> (r: Vec<char>)
    ensures
        r@ == s@,
{
    let mut r: Vec<char> = Vec::new();
    for c in it: s.chars()
        invariant
            it.seq() == s@,
            r@ == s@.take(it.index() as int),
    {
        r.push(c);
        assert(s@.take(it.index() + 1) =~= s@.take(it.index() as int).push(c));
    }
    assert(s@.take(s@.len() as int) =~= s@);
    r
}

/// Decides whether two texts are equal.
pub fn same(a: &str, b: &str) -> (r: bool)
    ensures
        r == (a@ == b@),
{
    a.to_owned() == b.to_owned()
}

/// Decides whether two texts are equal but for the case of ASCII letters.
pub fn same_ignoring_case(a: &str, b: &str) -> (r: bool)
    ensures
        r == (ascii_lower(a@) == ascii_lower(b@)),
{
    let x: Vec<char> = chars_of(a);
    let y: Vec<char> = chars_of(b);
    if x.len() != y.len() {
        assert(ascii_lower(a@).len() != ascii_lower(b@).len());
        return false;
    }
    let mut i: usize = 0;
    while i < x.len()
        invariant
            x@ == a@,
            y@ == b@,
            x@.len() == y@.len(),
            i <= x@.len(),
            forall|k: int| 0 <= k < i ==> ascii_lower_char(x@[k]) == ascii_lower_char(y@[k]),
        decreases x@.len() - i,
    {
        if lower_letter(x[i]) != lower_letter(y[i]) {
            assert(ascii_lower(a@)[i as int] != ascii_lower(b@)[i as int]);
            return false;
        }
        i = i + 1;
    }
    assert(ascii_lower(a@) =~= ascii_lower(b@));
    true
}

/// The lower-case letter of an ASCII upper-case letter; any other character itself.
fn lower_letter(c: char) -> (r: u32)
    ensures
        r == ascii_lower_char(c) as u32,
{
    if 'A' <= c && c <= 'Z' {
        c as u32 + 32
    } else {
        c as u32
    }
}

/// `s` in lower case.
///
/// Calls `str::to_lowercase` of the standard library, whose mapping is Unicode's. The result is
/// named by `unicode_lower`; on ASCII text only the letters `A` to `Z` change.
#[verifier::external_body]
pub(crate) fn lowercase(s: &str) -> (r: String)
    ensures
        r@ == unicode_lower(s@),
        s.is_ascii() ==> r@ == ascii_lower(s@),
{
    s.to_lowercase()
}

/// The path `s` in quotes, with the characters escaped that would not show.
///
/// Calls the `Debug` of `std::path::Path`. What it writes is a function of the text alone and is
/// named by `debug_quoted`.
#[verifier::external_body]
pub(crate) fn quoted(s: &str) -> (r: String)
    ensures
        r@ == debug_quoted(s@),
{
    format!("{:?}", std::path::Path::new(s))
}

/// Decides whether `needle` stands in `hay` at position `i`.
fn stands_at(hay: &Vec<char>, needle: &Vec<char>, i: usize) -> (r: bool)
    requires
        i + needle@.len() <= hay@.len(),
    ensures
        r == occurs_at(hay@, needle@, i as int),
{
    let n: usize = needle.len();
    let m: usize = hay.len();
    let mut k: usize = 0;
    while k < n
        invariant
            n == needle@.len(),
            m == hay@.len(),
            i + n <= m,
            k <= n,
            forall|j: int| 0 <= j < k ==> hay@[i + j] == needle@[j],
        decreases n - k,
    {
        if hay[i + k] != needle[k] {
            assert(hay@.subrange(i as int, i + n)[k as int] != needle@[k as int]);
            return false;
        }
        k = k + 1;
    }
    assert(hay@.subrange(i as int, i + n) =~= needle@);
    true
}

/// Decides whether `needle` stands somewhere in `hay`.
pub fn contains(hay: &str, needle: &str) -> (r: bool)
    ensures
        r == has_text(hay@, needle@),
{
    let h: Vec<char> = chars_of(hay);
    let p: Vec<char> = chars_of(needle);
    if p.len() > h.len() {
        return false;
    }
    let last: usize = h.len() - p.len();
    let mut i: usize = 0;
    loop
        invariant
            h@ == hay@,
            p@ == needle@,
            last == h@.len() - p@.len(),
            i <= last,
            forall|j: int| 0 <= j < i ==> !occurs_at(h@, p@, j),
        decreases last - i,
    {
        if stands_at(&h, &p, i) {
            return true;
        }
        if i == last {
            return false;
        }
        i = i + 1;
    }
}

/// Decides whether `s` begins with `prefix`.
pub fn starts_with(s: &str, prefix: &str) -> (r: bool)
    ensures
        r == prefix@.is_prefix_of(s@),
{
    let h: Vec<char> = chars_of(s);
    let p: Vec<char> = chars_of(prefix);
    if p.len() > h.len() {
        return false;
    }
    stands_at(&h, &p, 0)
}

/// `s` without the white space at both ends.
pub fn trim(s: &str) -> (r: &str)
    ensures
        r@ == trimmed(s@),
{
    let cs: Vec<char> = chars_of(s);
    let n: usize = cs.len();
    let mut from: usize = 0;
    assert(s@.skip(0) =~= s@);
    while from < n && space(cs[from])
        invariant
            cs@ == s@,
            n == cs@.len(),
            from <= n,
            trimmed_start(s@) == trimmed_start(s@.skip(from as int)),
        decreases n - from,
    {
        assert(s@.skip(from as int).drop_first() =~= s@.skip(from + 1));
        from = from + 1;
    }
    assert(trimmed_start(s@) == s@.skip(from as int));
    let mut to: usize = n;
    while from < to && space(cs[to - 1])
        invariant
            cs@ == s@,
            n == cs@.len(),
            from <= to <= n,
            trimmed_start(s@) == s@.skip(from as int),
            trimmed(s@) == trimmed_end(s@.subrange(from as int, to as int)),
        decreases to,
    {
        assert(s@.subrange(from as int, to as int).drop_last() =~= s@.subrange(
            from as int,
            to - 1,
        ));
        to = to - 1;
    }
    s.substring_char(from, to)
}

/// Filtering a sequence with one more element at its end.
pub proof fn lemma_filter_push<A>(s: Seq<A>, x: A, keep: spec_fn(A) -> bool)
    ensures
        s.push(x).filter(keep) == if keep(x) {
            s.filter(keep).push(x)
        } else {
            s.filter(keep)
        },
{
    reveal(Seq::filter);
    assert(s.push(x).drop_last() =~= s);
}

/// `s` without the characters `c` at its end.
pub fn trim_end_matches(s: &str, c: char) -> (r: &str)
    ensures
        r@ == without_trailing(s@, c),
{
    let cs: Vec<char> = chars_of(s);
    let mut to: usize = cs.len();
    assert(s@.take(to as int) =~= s@);
    while to > 0 && cs[to - 1] == c
        invariant
            cs@ == s@,
            to <= cs@.len(),
            without_trailing(s@, c) == without_trailing(s@.take(to as int), c),
        decreases to,
    {
        assert(s@.take(to as int).drop_last() =~= s@.take(to - 1));
        to = to - 1;
    }
    let r: &str = s.substring_char(0, to);
    assert(r@ =~= s@.take(to as int));
    r
}

/// `parts` with `sep` between them.
pub fn join(parts: &Vec<String>, sep: &str) -> (r: String)
    ensures
        r@ == joined(texts(parts@), sep@),
{
    let n: usize = parts.len();
    if n == 0 {
        return String::new();
    }
    let ghost all = texts(parts@);
    let mut r: String = parts[0].as_str().to_owned();
    let mut i: usize = 1;
    assert(all.take(1)[0] == parts@[0]@);
    while i < n
        invariant
            all == texts(parts@),
            n == parts@.len(),
            1 <= i <= n,
            r@ == joined(all.take(i as int), sep@),
        decreases n - i,
    {
        r.append(sep);
        r.append(parts[i].as_str());
        assert(all.take(i + 1).drop_last() =~= all.take(i as int));
        assert(all.take(i + 1).last() == parts@[i as int]@);
        i = i + 1;
    }
    assert(all.take(n as int) =~= all);
    r
}

/// The pieces of `s` between the characters `sep`.
pub fn split(s: &str, sep: char) -> (r: Vec<&str>)
    ensures
        views(r@) == pieces(s@, sep),
        r@.len() > 0,
{
    let cs: Vec<char> = chars_of(s);
    let n: usize = cs.len();
    let mut r: Vec<&str> = Vec::new();
    let mut start: usize = 0;
    let mut i: usize = 0;
    assert(s@.take(0) =~= Seq::<char>::empty());
    assert(s@.subrange(0, 0) =~= Seq::<char>::empty());
    assert(views(r@) =~= pieces(s@.take(0), sep).drop_last());
    while i < n
        invariant
            cs@ == s@,
            n == cs@.len(),
            start <= i <= n,
            pieces(s@.take(i as int), sep).len() > 0,
            pieces(s@.take(i as int), sep).last() == s@.subrange(start as int, i as int),
            pieces(s@.take(i as int), sep).drop_last() == views(r@),
        decreases n - i,
    {
        let ghost before = pieces(s@.take(i as int), sep);
        let ghost after = pieces(s@.take(i + 1), sep);
        let ghost found = views(r@);
        assert(s@.take(i + 1).drop_last() =~= s@.take(i as int));
        if cs[i] == sep {
            r.push(s.substring_char(start, i));
            assert(views(r@) =~= found.push(before.last()));
            assert(after.drop_last() =~= before);
            start = i + 1;
            assert(s@.subrange(i + 1, i + 1) =~= Seq::<char>::empty());
        } else {
            assert(s@.subrange(start as int, i + 1) =~= s@.subrange(start as int, i as int).push(
                s@[i as int],
            ));
            assert(after.drop_last() =~= before.drop_last());
        }
        i = i + 1;
    }
    assert(s@.take(n as int) =~= s@);
    let ghost found = views(r@);
    let tail: &str = s.substring_char(start, n);
    r.push(tail);
    assert(views(r@) =~= found.push(tail@));
    assert(pieces(s@, sep) =~= found.push(tail@));
    r
}

/// The lines of `s`.
pub fn lines(s: &str) -> (r: Vec<&str>)
    ensures
        views(r@) == text_lines(s@),
{
    let raw: Vec<&str> = split(s, '\n');
    let last: usize = raw.len() - 1;
    let mut r: Vec<&str> = Vec::new();
    let mut i: usize = 0;
    while i < last
        invariant
            views(raw@) == pieces(s@, '\n'),
            last == raw@.len() - 1,
            i <= last,
            r@.len() == i,
            forall|k: int| 0 <= k < i ==> (#[trigger] r@[k])@ == without_return(raw@[k]@),
        decreases last - i,
    {
        let line: &str = raw[i];
        let n: usize = line.unicode_len();
        if n > 0 && line.get_char(n - 1) == '\r' {
            let short: &str = line.substring_char(0, n - 1);
            assert(short@ =~= line@.drop_last());
            r.push(short);
        } else {
            r.push(line);
        }
        i = i + 1;
    }
    assert(forall|k: int| 0 <= k < raw@.len() ==> pieces(s@, '\n')[k] == (#[trigger] raw@[k])@);
    if !raw[last].is_empty() {
        r.push(raw[last]);
    }
    assert(views(r@) =~= text_lines(s@));
    r
}

/// The lines of `s` without the white space at their ends, blank ones left out.
pub fn trimmed_lines(s: &str) -> (r: Vec<&str>)
    ensures
        views(r@) == filled_lines(s@),
{
    let all: Vec<&str> = lines(s);
    let mut r: Vec<&str> = Vec::new();
    let ghost trim_one = |line: Seq<char>| trimmed(line);
    let ghost keep = |line: Seq<char>| line.len() > 0;
    let ghost whole = text_lines(s@).map_values(trim_one);
    let mut i: usize = 0;
    proof {
        reveal(Seq::filter);
        assert(views(r@) =~= whole.take(0).filter(keep));
    }
    while i < all.len()
        invariant
            views(all@) == text_lines(s@),
            trim_one == (|line: Seq<char>| trimmed(line)),
            keep == (|line: Seq<char>| line.len() > 0),
            whole == text_lines(s@).map_values(trim_one),
            i <= all@.len(),
            views(r@) == whole.take(i as int).filter(keep),
        decreases all@.len() - i,
    {
        let line: &str = trim(all[i]);
        proof {
            assert(views(all@)[i as int] == all@[i as int]@);
            lemma_filter_push(whole.take(i as int), line@, keep);
            assert(whole.take(i + 1) =~= whole.take(i as int).push(line@));
        }
        let ghost kept = views(r@);
        if !line.is_empty() {
            r.push(line);
            assert(views(r@) =~= kept.push(line@));
        }
        i = i + 1;
    }
    assert(whole.take(whole.len() as int) =~= whole);
    assert(views(all@).len() == all@.len());
    r
}

/// Adds a labelled text at the end.
pub fn push_pair(v: &mut Vec<(String, String)>, label: &str, value: &str)
    ensures
        pairs(final(v)@) == pairs(old(v)@).push((label@, value@)),
{
    v.push((label.to_owned(), value.to_owned()));
    assert(pairs(v@) =~= pairs(old(v)@).push((label@, value@)));
}

/// Adds a text at the end.
pub fn push_text(v: &mut Vec<String>, s: &str)
    ensures
        texts(final(v)@) == texts(old(v)@).push(s@),
{
    v.push(s.to_owned());
    assert(texts(v@) =~= texts(old(v)@).push(s@));
}

/// One labelled text.
pub fn one_pair(a: &str, x: &str) -> (r: Vec<(String, String)>)
    ensures
        pairs(r@) == seq![(a@, x@)],
{
    let mut r: Vec<(String, String)> = Vec::new();
    push_pair(&mut r, a, x);
    assert(pairs(r@) =~= seq![(a@, x@)]);
    r
}

/// Two labelled texts.
pub fn two_pairs(a: &str, x: &str, b: &str, y: &str) -> (r: Vec<(String, String)>)
    ensures
        pairs(r@) == seq![(a@, x@), (b@, y@)],
{
    let mut r: Vec<(String, String)> = one_pair(a, x);
    push_pair(&mut r, b, y);
    assert(pairs(r@) =~= seq![(a@, x@), (b@, y@)]);
    r
}

/// Three labelled texts.
pub fn three_pairs(a: &str, x: &str, b: &str, y: &str, c: &str, z: &str) -> (r: Vec<
    (String, String),
>)
    ensures
        pairs(r@) == seq![(a@, x@), (b@, y@), (c@, z@)],
{
    let mut r: Vec<(String, String)> = two_pairs(a, x, b, y);
    push_pair(&mut r, c, z);
    assert(pairs(r@) =~= seq![(a@, x@), (b@, y@), (c@, z@)]);
    r
}

/// `a`, `b` and `c` in one text.
pub fn concat3(a: &str, b: &str, c: &str) -> (r: String)
    ensures
        r@ == a@ + b@ + c@,
{
    let mut r: String = a.to_owned();
    r.append(b);
    r.append(c);
    r
}

/// A copy of a list of labelled texts.
pub fn copy_pairs(v: &Vec<(String, String)>) -> (r: Vec<(String, String)>)
    ensures
        pairs(r@) == pairs(v@),
{
    let mut r: Vec<(String, String)> = Vec::new();
    let mut i: usize = 0;
    assert(pairs(r@) =~= pairs(v@).take(0));
    while i < v.len()
        invariant
            i <= v@.len(),
            pairs(r@) == pairs(v@).take(i as int),
        decreases v@.len() - i,
    {
        push_pair(&mut r, v[i].0.as_str(), v[i].1.as_str());
        assert(pairs(r@) =~= pairs(v@).take(i + 1));
        i = i + 1;
    }
    assert(pairs(v@).take(i as int) =~= pairs(v@));
    r
}

/// Adds labelled texts at the end.
pub fn push_pairs(v: &mut Vec<(String, String)>, more: &Vec<(String, String)>)
    ensures
        pairs(final(v)@) == pairs(old(v)@) + pairs(more@),
{
    let mut copy: Vec<(String, String)> = copy_pairs(more);
    let ghost added = copy@;
    v.append(&mut copy);
    assert(pairs(v@) =~= pairs(old(v)@) + pairs(added));
}

/// `s` with spaces before it, up to `width` characters.
pub fn align_right(s: &str, width: usize) -> (r: String)
    ensures
        r@ == right_aligned(s@, width as nat),
{
    let n: usize = s.unicode_len();
    if n >= width {
        return s.to_owned();
    }
    proof {
        reveal_strlit("");
    }
    let mut r: String = align_left("", width - n);
    assert(r@ =~= spaces((width - n) as nat));
    r.append(s);
    r
}

/// How two texts stand to each other.
#[derive(Clone, Copy, Debug, PartialEq, Eq, Structural)]
pub enum TextOrder {
    Before,
    Same,
    After,
}

/// How two texts stand to each other, by their first character that differs.
pub fn order_texts(a: &str, b: &str) -> (r: TextOrder)
    ensures
        r == TextOrder::Before ==> text_before(a@, b@),
        r == TextOrder::Same ==> a@ == b@,
        r == TextOrder::After ==> text_before(b@, a@),
{
    let x: Vec<char> = chars_of(a);
    let y: Vec<char> = chars_of(b);
    let mut i: usize = 0;
    assert(a@.skip(0) =~= a@);
    assert(b@.skip(0) =~= b@);
    while i < x.len() && i < y.len() && x[i] == y[i]
        invariant
            x@ == a@,
            y@ == b@,
            i <= x@.len(),
            i <= y@.len(),
            a@.take(i as int) == b@.take(i as int),
            text_before(a@, b@) == text_before(a@.skip(i as int), b@.skip(i as int)),
            text_before(b@, a@) == text_before(b@.skip(i as int), a@.skip(i as int)),
        decreases x@.len() - i,
    {
        assert(a@.skip(i as int).drop_first() =~= a@.skip(i + 1));
        assert(b@.skip(i as int).drop_first() =~= b@.skip(i + 1));
        assert(a@.take(i + 1) =~= a@.take(i as int).push(a@[i as int]));
        assert(b@.take(i + 1) =~= b@.take(i as int).push(b@[i as int]));
        i = i + 1;
    }
    if i == x.len() && i == y.len() {
        assert(a@.take(i as int) =~= a@);
        assert(b@.take(i as int) =~= b@);
        TextOrder::Same
    } else if i == x.len() {
        TextOrder::Before
    } else if i == y.len() {
        TextOrder::After
    } else if x[i] < y[i] {
        TextOrder::Before
    } else {
        TextOrder::After
    }
}

/// No text comes before itself.
pub proof fn lemma_text_before_irreflexive(a: Seq<char>)
    ensures
        !text_before(a, a),
    decreases a.len(),
{
    if a.len() > 0 {
        lemma_text_before_irreflexive(a.drop_first());
    }
}

/// The order of texts is transitive.
pub proof fn lemma_text_before_transitive(a: Seq<char>, b: Seq<char>, c: Seq<char>)
    requires
        text_before(a, b),
        text_before(b, c),
    ensures
        text_before(a, c),
    decreases a.len(),
{
    if a.len() > 0 && a[0] == b[0] && b[0] == c[0] {
        lemma_text_before_transitive(a.drop_first(), b.drop_first(), c.drop_first());
    }
}

/// A copy of an optional text.
pub fn copy_opt(v: &Option<String>) -> (r: Option<String>)
    ensures
        opt_text(r) == opt_text(*v),
{
    match v {
        Some(s) => Some(s.as_str().to_owned()),
        None => None,
    }
}

/// The one-character text of the decimal digit `d`.
pub fn digit(d: u64) -> (r: &'static str)
    requires
        d < 10,
    ensures
        r@ == seq![digit_char(d as int)],
{
    proof {
        reveal_strlit("0");
        reveal_strlit("1");
        reveal_strlit("2");
        reveal_strlit("3");
        reveal_strlit("4");
        reveal_strlit("5");
        reveal_strlit("6");
        reveal_strlit("7");
        reveal_strlit("8");
        reveal_strlit("9");
    }
    let r: &'static str = match d {
        0 => "0",
        1 => "1",
        2 => "2",
        3 => "3",
        4 => "4",
        5 => "5",
        6 => "6",
        7 => "7",
        8 => "8",
        _ => "9",
    };
    assert(r@ =~= seq![digit_char(d as int)]);
    r
}

/// `n` in decimal.
pub fn decimal(n: u64) -> (r: String)
    ensures
        r@ == digits(n as nat),
    decreases n,
{
    if n < 10 {
        digit(n).to_owned()
    } else {
        let mut r: String = decimal(n / 10);
        r.append(digit(n % 10));
        assert(r@ =~= digits(n as nat));
        r
    }
}

/// `n` in decimal, with a minus sign where it is negative.
pub fn signed_decimal(n: i64) -> (r: String)
    ensures
        r@ == signed_digits(n as int),
{
    if n < 0 {
        proof {
            reveal_strlit("-");
        }
        let mut r: String = "-".to_owned();
        assert(r@ =~= seq!['-']);
        let m: u64 = (-(n as i128)) as u64;
        r.append(decimal(m).as_str());
        r
    } else {
        decimal(n as u64)
    }
}

/// The lowest `width` decimal digits of `n`, with leading zeros.
pub fn padded_decimal(n: u64, width: u64) -> (r: String)
    ensures
        r@ == padded_digits(n as nat, width as nat),
    decreases width,
{
    if width == 0 {
        String::new()
    } else {
        let mut r: String = padded_decimal(n / 10, width - 1);
        r.append(digit(n % 10));
        assert(r@ =~= padded_digits(n as nat, width as nat));
        r
    }
}

/// `s` with spaces behind it, up to `width` characters.
pub fn align_left(s: &str, width: usize) -> (r: String)
    ensures
        r@ == left_aligned(s@, width as nat),
{
    let n: usize = s.unicode_len();
    let mut r: String = s.to_owned();
    let mut k: usize = n;
    assert(s@ + spaces(0) =~= s@);
    while k < width
        invariant
            n == s@.len(),
            n <= k,
            n < width ==> k <= width,
            n >= width ==> k == n,
            r@ == s@ + spaces((k - n) as nat),
        decreases width - k,
    {
        proof {
            reveal_strlit(" ");
        }
        r.append(" ");
        assert(r@ =~= s@ + spaces((k + 1 - n) as nat));
        k = k + 1;
    }
    r
}

/// Splitting yields at least one piece.
pub proof fn lemma_pieces_nonempty(s: Seq<char>, sep: char)
    ensures
        pieces(s, sep).len() > 0,
    decreases s.len(),
{
    if s.len() > 0 {
        lemma_pieces_nonempty(s.drop_last(), sep);
    }
}

/// The pieces of two texts in a row: the last of the first and the first of the second become one.
pub proof fn lemma_pieces_add(a: Seq<char>, b: Seq<char>, sep: char)
    ensures
        pieces(a + b, sep) == pieces(a, sep).drop_last() + seq![
            pieces(a, sep).last() + pieces(b, sep)[0],
        ] + pieces(b, sep).drop_first(),
    decreases b.len(),
{
    lemma_pieces_nonempty(a, sep);
    lemma_pieces_nonempty(b, sep);
    let pa = pieces(a, sep);
    if b.len() == 0 {
        assert(a + b =~= a);
        assert(pa.last() + Seq::<char>::empty() =~= pa.last());
        assert(pa.drop_last() + seq![pa.last() + pieces(b, sep)[0]] + pieces(b, sep).drop_first()
            =~= pa);
    } else {
        let front = b.drop_last();
        let c = b.last();
        let pf = pieces(front, sep);
        lemma_pieces_add(a, front, sep);
        lemma_pieces_nonempty(front, sep);
        assert((a + b).drop_last() =~= a + front);
        assert((a + b).last() == c);
        let joint = pa.drop_last() + seq![pa.last() + pf[0]] + pf.drop_first();
        let whole = pa.drop_last() + seq![pa.last() + pieces(b, sep)[0]] + pieces(
            b,
            sep,
        ).drop_first();
        if c == sep {
            assert(joint.push(Seq::empty()) =~= whole);
        } else if pf.len() == 1 {
            assert((pa.last() + pf[0]).push(c) =~= pa.last() + pf[0].push(c));
            assert(joint.update(joint.len() - 1, joint.last().push(c)) =~= whole);
        } else {
            assert(joint.update(joint.len() - 1, joint.last().push(c)) =~= whole);
        }
    }
}

/// A text without the separator is one piece.
pub proof fn lemma_one_piece(s: Seq<char>, sep: char)
    requires
        !s.contains(sep),
    ensures
        pieces(s, sep) == seq![s],
    decreases s.len(),
{
    if s.len() == 0 {
        assert(s =~= Seq::<char>::empty());
        assert(pieces(s, sep) =~= seq![s]);
    } else {
        let front = s.drop_last();
        assert(s.contains(s[s.len() - 1]));
        if front.contains(sep) {
            let k = choose|k: int| 0 <= k < front.len() && front[k] == sep;
            assert(s[k] == sep);
        }
        lemma_one_piece(front, sep);
        assert(front.push(s.last()) =~= s);
        assert(pieces(s, sep) =~= seq![s]);
    }
}

/// All characters are white space.
pub open spec fn blank(s: Seq<char>) -> bool {
    forall|i: int| 0 <= i < s.len() ==> is_space(#[trigger] s[i])
}

/// White space in front does not matter to what is left of a text.
pub proof fn lemma_trimmed_front(w: Seq<char>, s: Seq<char>)
    requires
        blank(w),
    ensures
        trimmed_start(w + s) == trimmed_start(s),
        trimmed(w + s) == trimmed(s),
    decreases w.len(),
{
    if w.len() == 0 {
        assert(w + s =~= s);
    } else {
        assert(is_space(w[0]));
        assert((w + s).drop_first() =~= w.drop_first() + s);
        lemma_trimmed_front(w.drop_first(), s);
    }
}

/// White space behind does not matter to the end of a text.
proof fn lemma_trimmed_end_back(s: Seq<char>, w: Seq<char>)
    requires
        blank(w),
    ensures
        trimmed_end(s + w) == trimmed_end(s),
    decreases w.len(),
{
    if w.len() == 0 {
        assert(s + w =~= s);
    } else {
        assert(is_space(w[w.len() - 1]));
        assert((s + w).drop_last() =~= s + w.drop_last());
        lemma_trimmed_end_back(s, w.drop_last());
    }
}

/// White space behind does not matter to what is left of a text.
pub proof fn lemma_trimmed_back(s: Seq<char>, w: Seq<char>)
    requires
        blank(w),
    ensures
        trimmed(s + w) == trimmed(s),
    decreases s.len(),
{
    if s.len() == 0 {
        assert(s + w =~= w + Seq::<char>::empty());
        lemma_trimmed_front(w, Seq::empty());
        assert(s =~= Seq::<char>::empty());
    } else if is_space(s[0]) {
        assert((s + w).drop_first() =~= s.drop_first() + w);
        lemma_trimmed_back(s.drop_first(), w);
    } else {
        lemma_trimmed_end_back(s, w);
    }
}

/// The filled lines of a text are its pieces between line feeds, trimmed, blank ones left out.
pub proof fn lemma_filled_lines(s: Seq<char>)
    ensures
        filled_lines(s) == pieces(s, '\n').map_values(|line: Seq<char>| trimmed(line)).filter(
            |line: Seq<char>| line.len() > 0,
        ),
{
    let raw = pieces(s, '\n');
    let cut = |line: Seq<char>| trimmed(line);
    let keep = |line: Seq<char>| line.len() > 0;
    lemma_pieces_nonempty(s, '\n');
    let front = raw.drop_last();
    let ended = Seq::new((raw.len() - 1) as nat, |i: int| without_return(raw[i]));
    assert forall|i: int| 0 <= i < ended.len() implies trimmed(#[trigger] ended[i]) == trimmed(
        raw[i],
    ) by {
        let line = raw[i];
        if line.len() > 0 && line.last() == '\r' {
            let w = seq!['\r'];
            lemma_trimmed_back(line.drop_last(), w);
            assert(line.drop_last() + w =~= line);
        }
    }
    assert(ended.map_values(cut) =~= front.map_values(cut));
    assert(raw.map_values(cut) =~= front.map_values(cut).push(trimmed(raw.last())));
    lemma_filter_push(front.map_values(cut), trimmed(raw.last()), keep);
    if raw.last().len() > 0 {
        assert(ended.push(raw.last()).map_values(cut) =~= raw.map_values(cut));
    }
}

/// A number that is written in decimal reads back: the text holds digits only, without a zero in
/// front, and their value is the number.
pub proof fn law_digits_read_back(n: nat)
    ensures
        digits(n).len() > 0,
        all_digits(digits(n)),
        digits_value(digits(n)) == n,
        n > 0 ==> digits(n)[0] != '0',
    decreases n,
{
    if n < 10 {
        assert(digits(n).drop_last() =~= Seq::empty());
        reveal_with_fuel(digits_value, 2);
    } else {
        law_digits_read_back(n / 10);
        assert(digits(n).drop_last() =~= digits(n / 10));
        assert(digits(n)[0] == digits(n / 10)[0]);
        assert(is_digit(digit_char((n % 10) as int)));
    }
}

/// Two numbers that are written alike are the same number.
pub proof fn law_digits_tell_numbers_apart(m: nat, n: nat)
    requires
        digits(m) == digits(n),
    ensures
        m == n,
{
    law_digits_read_back(m);
    law_digits_read_back(n);
}

/// The lowest digits of a number are as many as asked for, and read back as the remainder.
pub proof fn law_padded_digits_read_back(n: nat, width: nat)
    ensures
        padded_digits(n, width).len() == width,
        all_digits(padded_digits(n, width)),
        digits_value(padded_digits(n, width)) == n % crate::binary64::pow10(width),
    decreases width,
{
    let p = crate::binary64::pow10(width);
    if width > 0 {
        let w = (width - 1) as nat;
        let q = crate::binary64::pow10(w);
        law_padded_digits_read_back(n / 10, w);
        assert(padded_digits(n, width).drop_last() =~= padded_digits(n / 10, w));
        assert(is_digit(digit_char((n % 10) as int)));
        crate::binary64::lemma_ten_positive(w);
        let x = n / 10;
        let y = n % 10;
        let a = x / q;
        let b = x % q;
        vstd::arithmetic::div_mod::lemma_fundamental_div_mod(x as int, q as int);
        vstd::arithmetic::div_mod::lemma_mod_bound(x as int, q as int);
        assert(n == a * p + (10 * b + y)) by (nonlinear_arith)
            requires
                n == 10 * x + y,
                x == q * a + b,
                p == 10 * q,
        ;
        vstd::arithmetic::div_mod::lemma_fundamental_div_mod_converse(
            n as int,
            p as int,
            a as int,
            (10 * b + y) as int,
        );
    }
}

/// What follows an option in a list of arguments is this value, and the option is there.
pub open spec fn sets(args: Seq<Seq<char>>, option: Seq<char>, value: Seq<char>) -> bool {
    &&& exists|i: int| 0 <= i < args.len() - 1 && #[trigger] args[i] == option && args[i + 1]
        == value
    &&& forall|i: int|
        0 <= i < args.len() - 1 && #[trigger] args[i] == option ==> args[i + 1] == value
}

/// Trimming takes white space off both ends, all of it and nothing else.
pub proof fn law_trimming_takes_white_space(s: Seq<char>)
    ensures
        exists|i: int, j: int| #[trigger]
            s.subrange(i, j) == trimmed(s) && 0 <= i <= j <= s.len() && (forall|k: int|
                0 <= k < i || j <= k < s.len() ==> is_space(#[trigger] s[k])),
        trimmed(s).len() > 0 ==> !is_space(trimmed(s)[0]) && !is_space(trimmed(s).last()),
{
    let a = trimmed_start(s);
    let i = lemma_trimmed_start_cuts(s);
    let j = lemma_trimmed_end_cuts(a);
    assert(s.subrange(i, i + j) =~= trimmed(s));
    assert forall|k: int| 0 <= k < i || i + j <= k < s.len() implies is_space(
        #[trigger] s[k],
    ) by {
        if k >= i + j {
            assert(a[k - i] == s[k]);
        }
    }
}

/// How many characters go at the beginning.
proof fn lemma_trimmed_start_cuts(s: Seq<char>) -> (i: int)
    ensures
        0 <= i <= s.len(),
        trimmed_start(s) == s.skip(i),
        forall|k: int| 0 <= k < i ==> is_space(#[trigger] s[k]),
        i < s.len() ==> !is_space(s[i]),
    decreases s.len(),
{
    if s.len() > 0 && is_space(s[0]) {
        let i = lemma_trimmed_start_cuts(s.drop_first());
        assert(s.drop_first().skip(i) =~= s.skip(i + 1));
        assert forall|k: int| 0 <= k < i + 1 implies is_space(#[trigger] s[k]) by {
            if k > 0 {
                assert(s.drop_first()[k - 1] == s[k]);
            }
        }
        i + 1
    } else {
        assert(s.skip(0) =~= s);
        0
    }
}

/// How many characters stay.
proof fn lemma_trimmed_end_cuts(s: Seq<char>) -> (j: int)
    ensures
        0 <= j <= s.len(),
        trimmed_end(s) == s.take(j),
        forall|k: int| j <= k < s.len() ==> is_space(#[trigger] s[k]),
        j > 0 ==> !is_space(s[j - 1]),
    decreases s.len(),
{
    if s.len() > 0 && is_space(s.last()) {
        let j = lemma_trimmed_end_cuts(s.drop_last());
        assert(s.drop_last().take(j) =~= s.take(j));
        assert forall|k: int| j <= k < s.len() implies is_space(#[trigger] s[k]) by {
            if k < s.len() - 1 {
                assert(s.drop_last()[k] == s[k]);
            }
        }
        j
    } else {
        assert(s.take(s.len() as int) =~= s);
        s.len() as int
    }
}

/// The pieces between separators hold none, and put together again with the separator between
/// them they are the text.
pub proof fn law_pieces_make_up_the_text(s: Seq<char>, sep: char)
    ensures
        pieces(s, sep).len() > 0,
        joined(pieces(s, sep), seq![sep]) == s,
        forall|k: int| 0 <= k < pieces(s, sep).len() ==> !(#[trigger] pieces(s, sep)[k]).contains(sep),
    decreases s.len(),
{
    lemma_pieces_nonempty(s, sep);
    reveal_with_fuel(joined, 3);
    if s.len() > 0 {
        let front = s.drop_last();
        law_pieces_make_up_the_text(front, sep);
        let before = pieces(front, sep);
        let all = pieces(s, sep);
        lemma_pieces_nonempty(front, sep);
        if s.last() == sep {
            assert(all.drop_last() =~= before);
            assert(joined(all, seq![sep]) =~= s);
        } else {
            assert(all.drop_last() =~= before.drop_last());
            assert(all.last() == before.last().push(s.last()));
            if before.len() == 1 {
                assert(joined(all, seq![sep]) == all[0]);
                assert(joined(before, seq![sep]) == before[0]);
            } else {
                let head = joined(before.drop_last(), seq![sep]);
                assert(joined(all, seq![sep]) == head + seq![sep] + all.last());
                assert(joined(before, seq![sep]) == head + seq![sep] + before.last());
            }
            assert(s =~= front.push(s.last()));
            assert(joined(all, seq![sep]) =~= s);
            let w = before.last();
            assert(!before[before.len() - 1].contains(sep));
            assert forall|k: int| 0 <= k < w.push(s.last()).len() implies w.push(s.last())[k]
                != sep by {
                if k < w.len() {
                    assert(w.contains(w[k]));
                }
            }
        }
    } else {
        assert(joined(pieces(s, sep), seq![sep]) =~= s);
    }
}

/// Of two texts that differ, one comes before the other.
pub proof fn law_texts_are_in_order(a: Seq<char>, b: Seq<char>)
    ensures
        text_before(a, b) || text_before(b, a) || a == b,
        !(text_before(a, b) && text_before(b, a)),
    decreases a.len(),
{
    if a.len() > 0 && b.len() > 0 && a[0] == b[0] {
        law_texts_are_in_order(a.drop_first(), b.drop_first());
        if a.drop_first() == b.drop_first() {
            assert(a =~= seq![a[0]] + a.drop_first());
            assert(b =~= seq![b[0]] + b.drop_first());
        }
    } else if a.len() == 0 && b.len() == 0 {
        assert(a =~= b);
    }
}

/// A text is aligned in a column by spaces alone: on the left it comes first, on the right last,
/// and a text that is too long is kept whole.
pub proof fn law_alignment_pads_with_spaces(s: Seq<char>, width: nat)
    ensures
        ({
            let l = left_aligned(s, width);
            let r = right_aligned(s, width);
            &&& l.len() == r.len()
            &&& l.len() == if s.len() < width { width } else { s.len() }
            &&& l.take(s.len() as int) == s
            &&& r.skip(r.len() - s.len()) == s
            &&& forall|k: int| s.len() <= k < l.len() ==> #[trigger] l[k] == ' '
            &&& forall|k: int| 0 <= k < r.len() - s.len() ==> #[trigger] r[k] == ' '
        }),
{
    assert(left_aligned(s, width).take(s.len() as int) =~= s);
    let r = right_aligned(s, width);
    assert(r.skip(r.len() - s.len()) =~= s);
}

/// More text behind takes nothing away.
pub proof fn lemma_has_more(s: Seq<char>, more: Seq<char>, part: Seq<char>)
    requires
        has_text(s, part),
    ensures
        has_text(s + more, part),
{
    let i = choose|i: int| occurs_at(s, part, i);
    assert((s + more).subrange(i, i + part.len()) =~= s.subrange(i, i + part.len()));
    assert(occurs_at(s + more, part, i));
}

/// A word at the end of one part and a value at the beginning of the next stand together.
pub proof fn lemma_has_across(
    front: Seq<char>,
    label: Seq<char>,
    word: Seq<char>,
    column: Seq<char>,
    value: Seq<char>,
)
    requires
        word.is_suffix_of(label),
        value.is_prefix_of(column),
    ensures
        has_text(front + label + column, word + value),
{
    let all = front + label + column;
    let part = word + value;
    let i = front.len() + label.len() - word.len();
    assert(all.subrange(i, i + part.len()) =~= part) by {
        assert forall|k: int| 0 <= k < part.len() implies all[i + k] == part[k] by {
            if k < word.len() {
                assert(word[k] == label.subrange(label.len() - word.len(), label.len() as int)[k]);
            } else {
                assert(value[k - word.len()] == column.subrange(0, value.len() as int)[k
                    - word.len()]);
            }
        }
    }
    assert(occurs_at(all, part, i));
}

/// What is aligned on the left begins its column.
pub proof fn lemma_left_begins(s: Seq<char>, width: nat)
    ensures
        s.is_prefix_of(left_aligned(s, width)),
{
    assert(left_aligned(s, width).subrange(0, s.len() as int) =~= s);
}

/// What is aligned on the right ends its column.
pub proof fn lemma_right_ends(s: Seq<char>, width: nat)
    ensures
        s.is_suffix_of(right_aligned(s, width)),
{
    let r = right_aligned(s, width);
    assert(r.subrange(r.len() - s.len(), r.len() as int) =~= s);
}

/// A part of a text that is known by its place.
pub proof fn lemma_ends_with(s: Seq<char>, end: Seq<char>)
    requires
        end.len() <= s.len(),
        forall|k: int| 0 <= k < end.len() ==> #[trigger] end[k] == s[s.len() - end.len() + k],
    ensures
        end.is_suffix_of(s),
{
    assert(s.subrange(s.len() - end.len(), s.len() as int) =~= end);
}

/// What is in front of a front part is in front of the whole.
pub proof fn lemma_in_front(s: Seq<char>, more: Seq<char>, whole: Seq<char>)
    requires
        (s + more).is_prefix_of(whole),
    ensures
        s.is_prefix_of(whole),
{
    let t = s + more;
    assert(whole.subrange(0, s.len() as int) =~= whole.subrange(0, t.len() as int).subrange(
        0,
        s.len() as int,
    ));
    assert(t.subrange(0, s.len() as int) =~= s);
}

/// The whole holds what a front part of it holds.
pub proof fn lemma_front_has(s: Seq<char>, whole: Seq<char>, part: Seq<char>)
    requires
        s.is_prefix_of(whole),
        has_text(s, part),
    ensures
        has_text(whole, part),
{
    let i = choose|i: int| occurs_at(s, part, i);
    assert(s =~= whole.subrange(0, s.len() as int));
    assert(whole.subrange(i, i + part.len()) =~= s.subrange(i, i + part.len()));
    assert(occurs_at(whole, part, i));
}

/// More text before takes nothing away.
pub proof fn lemma_has_behind(front: Seq<char>, s: Seq<char>, part: Seq<char>)
    requires
        has_text(s, part),
    ensures
        has_text(front + s, part),
{
    let i = choose|i: int| occurs_at(s, part, i);
    let j = front.len() + i;
    assert((front + s).subrange(j, j + part.len()) =~= s.subrange(i, i + part.len()));
    assert(occurs_at(front + s, part, j));
}

/// What is taken off the end is that character alone, and all of it.
pub proof fn law_trailing_characters_are_taken_off(s: Seq<char>, c: char)
    ensures
        without_trailing(s, c).is_prefix_of(s),
        forall|k: int| without_trailing(s, c).len() <= k < s.len() ==> #[trigger] s[k] == c,
        without_trailing(s, c).len() > 0 ==> without_trailing(s, c).last() != c,
    decreases s.len(),
{
    if s.len() > 0 && s.last() == c {
        let front = s.drop_last();
        law_trailing_characters_are_taken_off(front, c);
        let r = without_trailing(front, c);
        assert(s.subrange(0, r.len() as int) =~= front.subrange(0, r.len() as int));
        assert forall|k: int| r.len() <= k < s.len() implies #[trigger] s[k] == c by {
            if k < front.len() {
                assert(front[k] == c);
            }
        }
    } else {
        assert(s.subrange(0, s.len() as int) =~= s);
    }
}

/// A line ends at its line feed: it is read without the line feed and without a carriage return
/// before it, and what follows is read as if it stood alone.
pub proof fn law_lines_end_at_line_feeds(line: Seq<char>, rest: Seq<char>)
    requires
        !line.contains('\n'),
    ensures
        text_lines(line + seq!['\n'] + rest) == seq![without_return(line)] + text_lines(rest),
        line.len() > 0 ==> text_lines(line) == seq![line],
        text_lines(Seq::empty()).len() == 0,
{
    let sep = '\n';
    let head = line + seq![sep];
    lemma_one_piece(line, sep);
    assert(head.drop_last() =~= line);
    assert(pieces(head, sep) =~= seq![line, Seq::empty()]);
    lemma_pieces_add(head, rest, sep);
    lemma_pieces_nonempty(rest, sep);
    let tail = pieces(rest, sep);
    assert(Seq::<char>::empty() + tail[0] =~= tail[0]);
    let all = pieces(head + rest, sep);
    assert(all =~= seq![line] + tail);
    assert(text_lines(head + rest) =~= seq![without_return(line)] + text_lines(rest));
    if line.len() > 0 {
        assert(text_lines(line) =~= seq![line]);
    }
}

/// Only the ASCII letters change their case.
pub proof fn law_ascii_letters_change_their_case(c: char)
    ensures
        'A' <= c && c <= 'Z' ==> ascii_lower_char(c) as u32 == c as u32 + 32,
        !('A' <= c && c <= 'Z') ==> ascii_lower_char(c) == c,
        ascii_lower_char(ascii_lower_char(c)) == ascii_lower_char(c),
{
}

/// Texts are joined with the separator between them, and nowhere else.
pub proof fn law_texts_are_joined_with_the_separator(
    parts: Seq<Seq<char>>,
    last: Seq<char>,
    sep: Seq<char>,
)
    ensures
        joined(Seq::empty(), sep) == Seq::<char>::empty(),
        joined(seq![last], sep) == last,
        parts.len() > 0 ==> joined(parts.push(last), sep) == joined(parts, sep) + sep + last,
{
    assert(parts.push(last).drop_last() =~= parts);
}

/// The contents of a list are those of its items, in their order.
pub proof fn law_lists_hold_their_items(
    v: Seq<String>,
    w: Seq<&str>,
    p: Seq<(String, String)>,
    o: Option<String>,
    i: int,
)
    ensures
        texts(v).len() == v.len(),
        views(w).len() == w.len(),
        pairs(p).len() == p.len(),
        0 <= i < v.len() ==> texts(v)[i] == v[i]@,
        0 <= i < w.len() ==> views(w)[i] == w[i]@,
        0 <= i < p.len() ==> pairs(p)[i] == (p[i].0@, p[i].1@),
        o is None <==> opt_text(o) is None,
        o matches Some(s) ==> opt_text(o) == Some(s@),
{
}

/// Two more parts behind take nothing away.
pub proof fn lemma_reaches(s: Seq<char>, a: Seq<char>, b: Seq<char>, part: Seq<char>)
    requires
        has_text(s, part),
    ensures
        has_text(s + a + b, part),
{
    lemma_has_more(s, a, part);
    lemma_has_more(s + a, b, part);
}

/// A sum ends with its last part.
pub proof fn lemma_last_part(a: Seq<char>, b: Seq<char>)
    ensures
        b.is_suffix_of(a + b),
{
    assert((a + b).subrange(a.len() as int, (a + b).len() as int) =~= b);
}

/// Three parts at the end stand together.
pub proof fn lemma_last_three(front: Seq<char>, a: Seq<char>, b: Seq<char>, c: Seq<char>)
    ensures
        has_text(front + a + b + c, a + b + c),
{
    let e = Seq::<char>::empty();
    assert(front + a + b + c =~= front + (a + b + c) + e);
    lemma_has_part(front, a + b + c, e);
}

/// Two parts at the end are the end, also where the first of them ends a column.
pub proof fn lemma_last_two(front: Seq<char>, column: Seq<char>, a: Seq<char>, b: Seq<char>)
    requires
        a.is_suffix_of(column),
    ensures
        (a + b).is_suffix_of(front + column + b),
{
    let all = front + column + b;
    let end = a + b;
    assert(column.subrange(column.len() - a.len(), column.len() as int) =~= a);
    assert(all.subrange(all.len() - end.len(), all.len() as int) =~= end);
}

/// What begins a front part begins the whole.
pub proof fn lemma_begins(s: Seq<char>, front: Seq<char>, whole: Seq<char>)
    requires
        s.is_prefix_of(front),
        front.is_prefix_of(whole),
    ensures
        s.is_prefix_of(whole),
{
    assert(front =~= whole.subrange(0, front.len() as int));
    assert(whole.subrange(0, s.len() as int) =~= front.subrange(0, s.len() as int));
}

/// A text is its own beginning and its own end.
pub proof fn lemma_whole(s: Seq<char>)
    ensures
        s.is_prefix_of(s),
        s.is_suffix_of(s),
{
    assert(s.subrange(0, s.len() as int) =~= s);
}

} // verus!
