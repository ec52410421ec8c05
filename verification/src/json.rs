//! JSON documents.

use crate::text::{at_most, decimal, digits, pairs, push_pair, same};
use vstd::prelude::*;

verus! {

/// A JSON value. A number is kept as it is written, with the bits of the binary64 number that it
/// is; the members of an object stand in the order in which they are walked.
#[derive(Debug)]
pub enum Json {
    Null,
    Bool(bool),
    Number(String, Option<u64>),
    Text(String),
    List(Vec<Json>),
    Object(Vec<(String, Json)>),
}

/// A JSON value, as plain values.
pub enum JsonText {
    Null,
    Bool(bool),
    Number(Seq<char>, Option<u64>),
    Text(Seq<char>),
    List(Seq<JsonText>),
    Object(Seq<(Seq<char>, JsonText)>),
}

impl View for Json {
    type V = JsonText;

    open spec fn view(&self) -> JsonText
        decreases self,
    {
        match self {
            Json::Null => JsonText::Null,
            Json::Bool(b) => JsonText::Bool(*b),
            Json::Number(n, bits) => JsonText::Number(n@, *bits),
            Json::Text(s) => JsonText::Text(s@),
            Json::List(items) => JsonText::List(
                Seq::new(
                    items@.len(),
                    |i: int|
                        if 0 <= i < items@.len() {
                            items@[i].view()
                        } else {
                            JsonText::Null
                        },
                ),
            ),
            Json::Object(members) => JsonText::Object(
                Seq::new(
                    members@.len(),
                    |i: int|
                        if 0 <= i < members@.len() {
                            (members@[i].0@, members@[i].1.view())
                        } else {
                            (Seq::empty(), JsonText::Null)
                        },
                ),
            ),
        }
    }
}

/// A value of `serde_json`.
#[verifier::external_type_specification]
#[verifier::external_body]
pub struct ExValue(serde_json::Value);

/// What a `serde_json::Value` holds.
pub uninterp spec fn value_tree(v: serde_json::Value) -> JsonText;

/// The value that a JSON text denotes, where it is one.
pub uninterp spec fn json_document(text: Seq<char>) -> Option<JsonText>;

/// Reads a JSON text.
///
/// Calls `serde_json::from_str`. What it returns depends on the text alone and is named by
/// `json_document`; its error is not kept.
#[verifier::external_body]
fn read_value(text: &str) -> (r: Option<serde_json::Value>)
    ensures
        match r {
            Some(v) => json_document(text@) == Some(value_tree(v)),
            None => json_document(text@) is None,
        },
{
    serde_json::from_str(text).ok()
}

/// Takes a `serde_json::Value` apart.
///
/// Each variant becomes the variant of the same meaning: a number becomes what its `Display`
/// writes, with the bits of what its `as_f64` gives; the members of an object keep the order of
/// `serde_json::Map`.
#[verifier::external_body]
fn unfold_value(v: serde_json::Value) -> (r: Json)
    ensures
        r@ == value_tree(v),
{
    match v {
        serde_json::Value::Null => Json::Null,
        serde_json::Value::Bool(b) => Json::Bool(b),
        serde_json::Value::Number(n) => Json::Number(
            n.to_string(),
            n.as_f64().map(|x| x.to_bits()),
        ),
        serde_json::Value::String(s) => Json::Text(s),
        serde_json::Value::Array(a) => Json::List(a.into_iter().map(unfold_value).collect()),
        serde_json::Value::Object(m) => Json::Object(
            m.into_iter().map(|e| (e.0, unfold_value(e.1))).collect(),
        ),
    }
}

/// An object holds what its members hold.
proof fn lemma_object(value: Json, members: Seq<(String, Json)>)
    requires
        value is Object,
        members == value->Object_0@,
    ensures
        value@ is Object,
        value@->Object_0.len() == members.len(),
        forall|k: int|
            0 <= k < members.len() ==> (#[trigger] value@->Object_0[k]) == (
                members[k].0@,
                members[k].1@,
            ),
{
    reveal_with_fuel(<Json as View>::view, 2);
}

/// A list holds what its items hold.
pub proof fn lemma_list(value: Json, items: Seq<Json>)
    requires
        value is List,
        items == value->List_0@,
    ensures
        value@ is List,
        value@->List_0.len() == items.len(),
        forall|k: int|
            0 <= k < items.len() ==> (#[trigger] value@->List_0[k]) == items[k]@,
{
    reveal_with_fuel(<Json as View>::view, 2);
}

/// What an optional value holds.
pub open spec fn opt_json(v: Option<Json>) -> Option<JsonText> {
    match v {
        Some(x) => Some(x@),
        None => None,
    }
}

/// Reads a JSON text.
pub fn parse_json(text: &str) -> (r: Option<Json>)
    ensures
        opt_json(r) == json_document(text@),
{
    match read_value(text) {
        Some(v) => Some(unfold_value(v)),
        None => None,
    }
}

/// The value of the first of `members` with the key `key`.
pub open spec fn first_member(members: Seq<(Seq<char>, JsonText)>, key: Seq<char>) -> Option<
    JsonText,
>
    decreases members.len(),
{
    if members.len() == 0 {
        None
    } else if members[0].0 == key {
        Some(members[0].1)
    } else {
        first_member(members.drop_first(), key)
    }
}

impl JsonText {
    /// The member `key`, where the value is an object that has one.
    pub open spec fn member(self, key: Seq<char>) -> Option<JsonText> {
        match self {
            JsonText::Object(members) => first_member(members, key),
            _ => None,
        }
    }

    /// The text, where the value is one.
    pub open spec fn text(self) -> Option<Seq<char>> {
        match self {
            JsonText::Text(s) => Some(s),
            _ => None,
        }
    }

    /// The text of the member `key`.
    pub open spec fn member_text(self, key: Seq<char>) -> Option<Seq<char>> {
        match self.member(key) {
            Some(v) => v.text(),
            None => None,
        }
    }
}

impl Json {
    /// The member `key`, where the value is an object that has one.
    pub fn get(&self, key: &str) -> (r: Option<&Json>)
        ensures
            match r {
                Some(v) => self@.member(key@) == Some(v@),
                None => self@.member(key@) is None,
            },
    {
        match self {
            Json::Object(members) => {
                let ghost all = self@->Object_0;
                let mut i: usize = 0;
                proof {
                    lemma_object(*self, members@);
                }
                assert(all.skip(0) =~= all);
                while i < members.len()
                    invariant
                        i <= members@.len(),
                        all.len() == members@.len(),
                        forall|k: int|
                            0 <= k < all.len() ==> (#[trigger] all[k]) == (
                                members@[k].0@,
                                members@[k].1@,
                            ),
                        self@.member(key@) == first_member(all.skip(i as int), key@),
                    decreases members@.len() - i,
                {
                    assert(all.skip(i as int)[0] == all[i as int]);
                    if same(members[i].0.as_str(), key) {
                        return Some(&members[i].1);
                    }
                    assert(all.skip(i as int).drop_first() =~= all.skip(i + 1));
                    i = i + 1;
                }
                None
            },
            _ => None,
        }
    }

    /// The text, where the value is one.
    pub fn as_str(&self) -> (r: Option<&str>)
        ensures
            r is Some == self@.text() is Some,
            r is Some ==> Some(r->0@) == self@.text(),
    {
        match self {
            Json::Text(s) => Some(s.as_str()),
            _ => None,
        }
    }

    /// The text of the member `key`.
    pub fn get_str(&self, key: &str) -> (r: Option<&str>)
        ensures
            r is Some == self@.member_text(key@) is Some,
            r is Some ==> Some(r->0@) == self@.member_text(key@),
    {
        match self.get(key) {
            Some(v) => v.as_str(),
            None => None,
        }
    }
}

/// The key of a member below the key `prefix`.
pub open spec fn nested_key(prefix: Seq<char>, key: Seq<char>) -> Seq<char> {
    if prefix.len() == 0 {
        key
    } else {
        prefix + "."@ + key
    }
}

/// The values of a document that are no objects, each with its dotted key, in document order. A
/// list counts as one value.
pub open spec fn leaves(prefix: Seq<char>, value: JsonText) -> Seq<(Seq<char>, Seq<char>)>
    decreases value, 0nat,
{
    match value {
        JsonText::Object(members) => member_leaves(prefix, members, members.len()),
        JsonText::Text(s) => seq![(prefix, s)],
        JsonText::Number(n, _) => seq![(prefix, n)],
        JsonText::Bool(b) => seq![(prefix, if b { "true"@ } else { "false"@ })],
        JsonText::List(items) => seq![(prefix, "["@ + digits(items.len()) + " elements]"@)],
        JsonText::Null => seq![(prefix, "null"@)],
    }
}

/// The leaves of the first `n` of `members`.
pub open spec fn member_leaves(
    prefix: Seq<char>,
    members: Seq<(Seq<char>, JsonText)>,
    n: nat,
) -> Seq<(Seq<char>, Seq<char>)>
    decreases members, n,
{
    if n == 0 || n > members.len() {
        Seq::empty()
    } else {
        member_leaves(prefix, members, (n - 1) as nat) + leaves(
            nested_key(prefix, members[n - 1].0),
            members[n - 1].1,
        )
    }
}

/// The leaves of fewer members stand at the front of the leaves of more.
proof fn lemma_member_leaves_prefix(
    prefix: Seq<char>,
    members: Seq<(Seq<char>, JsonText)>,
    i: nat,
    n: nat,
)
    requires
        i <= n <= members.len(),
    ensures
        member_leaves(prefix, members, i).is_prefix_of(member_leaves(prefix, members, n)),
    decreases n - i,
{
    if i < n {
        lemma_member_leaves_prefix(prefix, members, i, (n - 1) as nat);
        let shorter = member_leaves(prefix, members, (n - 1) as nat);
        assert(member_leaves(prefix, members, n).take(shorter.len() as int) =~= shorter);
        assert(shorter.take(member_leaves(prefix, members, i).len() as int)
            =~= member_leaves(prefix, members, n).take(
            member_leaves(prefix, members, i).len() as int,
        ));
    }
}

/// How many telemetry items are kept.
pub const MAX_TELEMETRY_ITEMS: usize = 10;

/// Adds the leaves of `value` below the key `prefix`, until ten items are there.
pub fn flatten_json_value(prefix: &str, value: &Json, out: &mut Vec<(String, String)>)
    requires
        old(out)@.len() < MAX_TELEMETRY_ITEMS,
    ensures
        pairs(final(out)@) == at_most(
            pairs(old(out)@) + leaves(prefix@, value@),
            MAX_TELEMETRY_ITEMS as nat,
        ),
    decreases *value,
{
    let ghost before = pairs(out@);
    match value {
        Json::Object(members) => {
            let ghost all = value@->Object_0;
            let mut i: usize = 0;
            proof {
                lemma_object(*value, members@);
            }
            assert(before + member_leaves(prefix@, all, 0) =~= before);
            while i < members.len()
                invariant
                    *value == Json::Object(*members),
                    value@ == JsonText::Object(all),
                    all.len() == members@.len(),
                    forall|k: int|
                        0 <= k < all.len() ==> (#[trigger] all[k]) == (
                            members@[k].0@,
                            members@[k].1@,
                        ),
                    i <= members@.len(),
                    before == pairs(old(out)@),
                    before.len() < MAX_TELEMETRY_ITEMS,
                    out@.len() < MAX_TELEMETRY_ITEMS,
                    pairs(out@) == before + member_leaves(prefix@, all, i as nat),
                decreases members@.len() - i,
            {
                let key: String = if prefix.is_empty() {
                    members[i].0.as_str().to_owned()
                } else {
                    let mut k: String = prefix.to_owned();
                    k.append(".");
                    k.append(members[i].0.as_str());
                    k
                };
                let ghost front = pairs(out@);
                let ghost tail = leaves(key@, all[i as int].1);
                assert(decreases_to!(*value => value->Object_0));
                assert(decreases_to!(*members => members@));
                assert(decreases_to!(members@ => members@[i as int]));
                flatten_json_value(key.as_str(), &members[i].1, out);
                assert(front + tail =~= before + member_leaves(prefix@, all, (i + 1) as nat));
                i = i + 1;
                if out.len() >= MAX_TELEMETRY_ITEMS {
                    proof {
                        let some = member_leaves(prefix@, all, i as nat);
                        let whole = leaves(prefix@, value@);
                        lemma_member_leaves_prefix(prefix@, all, i as nat, all.len());
                        assert(pairs(out@) =~= (before + whole).take(10));
                        if before.len() + whole.len() == 10 {
                            assert((before + whole).take(10) =~= before + whole);
                        }
                    }
                    return;
                }
            }
        },
        Json::Text(s) => {
            push_pair(out, prefix, s.as_str());
            assert(pairs(out@) =~= before + leaves(prefix@, value@));
        },
        Json::Number(n, _) => {
            push_pair(out, prefix, n.as_str());
            assert(pairs(out@) =~= before + leaves(prefix@, value@));
        },
        Json::Bool(b) => {
            push_pair(out, prefix, if *b { "true" } else { "false" });
            assert(pairs(out@) =~= before + leaves(prefix@, value@));
        },
        Json::List(items) => {
            let mut count: String = "[".to_owned();
            count.append(decimal(items.len() as u64).as_str());
            count.append(" elements]");
            push_pair(out, prefix, count.as_str());
            proof {
                lemma_list(*value, items@);
            }
            assert(pairs(out@) =~= before + leaves(prefix@, value@));
        },
        Json::Null => {
            push_pair(out, prefix, "null");
            assert(pairs(out@) =~= before + leaves(prefix@, value@));
        },
    }
}

/// The first ten leaves of a document, where it has any.
pub open spec fn telemetry_items(document: JsonText) -> Option<Seq<(Seq<char>, Seq<char>)>> {
    let all = leaves(Seq::empty(), document);
    if all.len() == 0 {
        None
    } else {
        Some(at_most(all, MAX_TELEMETRY_ITEMS as nat))
    }
}

/// Telemetry that is found has between one and ten items, and they are the first of the document.
pub proof fn law_telemetry_is_the_first_items(document: JsonText)
    ensures
        telemetry_items(document) matches Some(items) ==> 1 <= items.len() <= 10
            && items.is_prefix_of(leaves(Seq::empty(), document)) && (items.len() == 10
            || items == leaves(Seq::empty(), document)),
        telemetry_items(document) is None <==> leaves(Seq::empty(), document).len() == 0,
{
    let all = leaves(Seq::empty(), document);
    assert(all.take(all.len() as int) =~= all);
}

/// What an optional list of labelled texts holds.
pub open spec fn opt_pairs(v: Option<Vec<(String, String)>>) -> Option<
    Seq<(Seq<char>, Seq<char>)>,
> {
    match v {
        Some(items) => Some(pairs(items@)),
        None => None,
    }
}

/// The first ten leaves of a document, where it has any.
pub fn telemetry_from_json(document: &Json) -> (r: Option<Vec<(String, String)>>)
    ensures
        opt_pairs(r) == telemetry_items(document@),
{
    let mut items: Vec<(String, String)> = Vec::new();
    proof {
        reveal_strlit("");
        assert(""@ =~= Seq::<char>::empty());
        assert(pairs(items@) =~= Seq::empty());
        assert(pairs(items@) + leaves(""@, document@) =~= leaves(Seq::empty(), document@));
    }
    flatten_json_value("", document, &mut items);
    assert(pairs(items@).len() == items@.len());
    if items.is_empty() {
        None
    } else {
        Some(items)
    }
}

/// A member is found by its key, the first of that name, and nothing is found that is not there.
pub proof fn law_members_are_found_by_key(
    members: Seq<(Seq<char>, JsonText)>,
    key: Seq<char>,
    i: int,
)
    ensures
        0 <= i < members.len() && members[i].0 == key && (forall|j: int|
            0 <= j < i ==> (#[trigger] members[j]).0 != key) ==> JsonText::Object(members).member(
            key,
        ) == Some(members[i].1),
        (forall|j: int| 0 <= j < members.len() ==> (#[trigger] members[j]).0 != key)
            ==> JsonText::Object(members).member(key) is None,
    decreases members.len(),
{
    if members.len() > 0 {
        let rest = members.drop_first();
        law_members_are_found_by_key(rest, key, i - 1);
        if 0 < i < members.len() {
            assert(rest[i - 1] == members[i]);
        }
        if members[0].0 != key {
            if 0 <= i < members.len() && members[i].0 == key && (forall|j: int|
                0 <= j < i ==> (#[trigger] members[j]).0 != key) {
                assert forall|j: int| 0 <= j < i - 1 implies (#[trigger] rest[j]).0 != key by {
                    assert(rest[j] == members[j + 1]);
                }
            }
            if forall|j: int| 0 <= j < members.len() ==> (#[trigger] members[j]).0 != key {
                assert forall|j: int| 0 <= j < rest.len() implies (#[trigger] rest[j]).0 != key by {
                    assert(rest[j] == members[j + 1]);
                }
            }
        }
    }
}

/// Only a text is read as one, and only an object has members.
pub proof fn law_texts_are_texts(value: JsonText, key: Seq<char>)
    ensures
        value.text() is Some <==> value is Text,
        value matches JsonText::Text(s) ==> value.text() == Some(s),
        !(value is Object) ==> value.member(key) is None,
{
}

/// Telemetry is read item by item: an item of an object stands under its key, one of an object in
/// it under both keys with a dot between, and items keep their order and their values.
pub proof fn law_telemetry_items_have_dotted_keys(
    members: Seq<(Seq<char>, JsonText)>,
    key: Seq<char>,
    inner: Seq<char>,
    value: Seq<char>,
)
    ensures
        leaves(Seq::empty(), JsonText::Object(members.push((key, JsonText::Text(value)))))
            == leaves(Seq::empty(), JsonText::Object(members)).push((key, value)),
        leaves(
            Seq::empty(),
            JsonText::Object(
                members.push((key, JsonText::Object(seq![(inner, JsonText::Text(value))]))),
            ),
        ) == if key.len() > 0 {
            leaves(Seq::empty(), JsonText::Object(members)).push((key + "."@ + inner, value))
        } else {
            leaves(Seq::empty(), JsonText::Object(members)).push((inner, value))
        },
        leaves(Seq::empty(), JsonText::Object(Seq::empty())).len() == 0,
{
    let none = Seq::<char>::empty();
    let text = JsonText::Text(value);
    let n = members.len();
    let one = members.push((key, text));
    lemma_front_members(members, (key, text), n);
    assert(one[n as int] == (key, text));
    assert(leaves(key, text) == seq![(key, value)]);
    assert(member_leaves(none, one, n + 1) == member_leaves(none, one, n) + leaves(
        nested_key(none, key),
        text,
    ));
    assert(leaves(none, JsonText::Object(one)) =~= leaves(none, JsonText::Object(members)).push(
        (key, value),
    ));
    let small = seq![(inner, text)];
    let nested = JsonText::Object(small);
    let two = members.push((key, nested));
    lemma_front_members(members, (key, nested), n);
    assert(two[n as int] == (key, nested));
    let full = nested_key(key, inner);
    assert(leaves(full, text) == seq![(full, value)]);
    assert(member_leaves(key, small, 0) =~= Seq::empty());
    assert(member_leaves(key, small, 1) == member_leaves(key, small, 0) + leaves(full, text));
    assert(leaves(key, nested) == member_leaves(key, small, 1));
    assert(leaves(key, nested) =~= seq![(full, value)]);
    assert(member_leaves(none, two, n + 1) == member_leaves(none, two, n) + leaves(
        nested_key(none, key),
        nested,
    ));
    assert(leaves(none, JsonText::Object(two)) =~= leaves(none, JsonText::Object(members)).push(
        (full, value),
    ));
}

/// The leaves of the first members do not depend on a member behind them.
proof fn lemma_front_members(
    members: Seq<(Seq<char>, JsonText)>,
    more: (Seq<char>, JsonText),
    n: nat,
)
    requires
        n <= members.len(),
    ensures
        member_leaves(Seq::empty(), members.push(more), n) == member_leaves(
            Seq::empty(),
            members,
            n,
        ),
    decreases n,
{
    if n > 0 {
        lemma_front_members(members, more, (n - 1) as nat);
        assert(members.push(more)[n - 1] == members[n - 1]);
    }
}

/// A value that is no object is one item: a number as it is written, a truth value as a word, a
/// list as its length, and nothing as such.
pub proof fn law_values_are_shown_as_written(
    key: Seq<char>,
    n: Seq<char>,
    bits: Option<u64>,
    items: Seq<JsonText>,
)
    ensures
        leaves(key, JsonText::Number(n, bits)) == seq![(key, n)],
        leaves(key, JsonText::Bool(true)) == seq![(key, "true"@)],
        leaves(key, JsonText::Bool(false)) == seq![(key, "false"@)],
        leaves(key, JsonText::Null) == seq![(key, "null"@)],
        leaves(key, JsonText::List(items)) == seq![
            (key, "["@ + digits(items.len()) + " elements]"@),
        ],
{
}

/// The plain value of a document is what it holds, item by item and member by member.
pub proof fn law_documents_are_what_they_say(value: Json, i: int)
    ensures
        value is Null <==> value@ is Null,
        value matches Json::Bool(b) ==> value@ == JsonText::Bool(b),
        value matches Json::Number(n, bits) ==> value@ == JsonText::Number(n@, bits),
        value matches Json::Text(s) ==> value@ == JsonText::Text(s@),
        value matches Json::List(items) ==> value@ is List && value@->List_0.len() == items@.len()
            && (0 <= i < items@.len() ==> value@->List_0[i] == items@[i]@),
        value matches Json::Object(members) ==> value@ is Object && value@->Object_0.len()
            == members@.len() && (0 <= i < members@.len() ==> value@->Object_0[i] == (
            members@[i].0@,
            members@[i].1@,
        )),
        opt_json(Some(value)) == Some(value@),
        opt_json(None) is None,
{
    match value {
        Json::List(items) => lemma_list(value, items@),
        Json::Object(members) => lemma_object(value, members@),
        _ => {},
    }
}

} // verus!
