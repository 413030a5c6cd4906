//! Structured documents: what the library reads of JSON messages and of
//! settings files.
use vstd::prelude::*;

use crate::text;

verus! {

/// A scalar that the library carries through a document without reading it: a
/// boolean, a fractional number, a date.
#[derive(Debug, PartialEq)]
pub enum Scalar {
    Json(serde_json::Value),
    Toml(toml::Value),
}

/// A structured document.
#[derive(Debug, PartialEq)]
pub enum Json {
    Null,
    Unsigned(u64),
    Integer(i64),
    Text(String),
    Other(Scalar),
    List(Vec<Json>),
    Object(Vec<(String, Json)>),
}

/// The contents of a structured document.
pub enum JsonView {
    Null,
    Unsigned(u64),
    Integer(i64),
    Text(Seq<char>),
    Other(Scalar),
    List(Seq<JsonView>),
    Object(Seq<(Seq<char>, JsonView)>),
}

impl View for Json {
    type V = JsonView;

    open spec fn view(&self) -> JsonView {
        json_view(*self)
    }
}

/// The contents of a structured document.
pub open spec fn json_view(value: Json) -> JsonView
    decreases value,
{
    match value {
        Json::Null => JsonView::Null,
        Json::Unsigned(n) => JsonView::Unsigned(n),
        Json::Integer(n) => JsonView::Integer(n),
        Json::Text(s) => JsonView::Text(s@),
        Json::Other(scalar) => JsonView::Other(scalar),
        Json::List(items) => JsonView::List(list_view(items@)),
        Json::Object(entries) => JsonView::Object(entries_view(entries@)),
    }
}

/// The contents of a list of documents.
pub open spec fn list_view(items: Seq<Json>) -> Seq<JsonView>
    decreases items,
{
    Seq::new(
        items.len(),
        |i: int|
            if 0 <= i < items.len() {
                json_view(items[i])
            } else {
                JsonView::Null
            },
    )
}

/// The contents of an object's entries, in order.
pub open spec fn entries_view(entries: Seq<(String, Json)>) -> Seq<(Seq<char>, JsonView)>
    decreases entries,
{
    Seq::new(
        entries.len(),
        |i: int|
            if 0 <= i < entries.len() {
                (entries[i].0@, json_view(entries[i].1))
            } else {
                (Seq::<char>::empty(), JsonView::Null)
            },
    )
}

// ------------------------------------------------------------------ reading

/// The position of the first entry with the given key; the number of entries
/// where there is none.
pub open spec fn key_index(entries: Seq<(Seq<char>, JsonView)>, key: Seq<char>) -> int
    decreases entries.len(),
{
    if entries.len() == 0 {
        0
    } else {
        let before = key_index(entries.drop_last(), key);
        if before < entries.len() - 1 {
            before
        } else if entries.last().0 == key {
            entries.len() - 1
        } else {
            entries.len() as int
        }
    }
}

/// What stands under a key of an object; nothing where the document is no
/// object or lacks the key.
pub open spec fn field(value: JsonView, key: Seq<char>) -> Option<JsonView> {
    match value {
        JsonView::Object(entries) => {
            let at = key_index(entries, key);
            if at < entries.len() {
                Some(entries[at].1)
            } else {
                None
            }
        },
        _ => None,
    }
}

/// The text of a document that is a text.
pub open spec fn text_of(value: Option<JsonView>) -> Option<Seq<char>> {
    match value {
        Some(JsonView::Text(s)) => Some(s),
        _ => None,
    }
}

/// The number of a document that is an unsigned integer.
pub open spec fn unsigned_of(value: Option<JsonView>) -> Option<u64> {
    match value {
        Some(JsonView::Unsigned(n)) => Some(n),
        _ => None,
    }
}

/// The contents of an optional document.
pub open spec fn opt_json(value: Option<&Json>) -> Option<JsonView> {
    match value {
        Some(j) => Some(j@),
        None => None,
    }
}

/// The position that `key_index` gives is that of the first entry with the key.
pub proof fn lemma_key_index(entries: Seq<(Seq<char>, JsonView)>, key: Seq<char>)
    ensures
        0 <= key_index(entries, key) <= entries.len(),
        key_index(entries, key) < entries.len() ==> entries[key_index(entries, key)].0 == key,
        forall|i: int| 0 <= i < key_index(entries, key) ==> (#[trigger] entries[i]).0 != key,
    decreases entries.len(),
{
    if entries.len() > 0 {
        lemma_key_index(entries.drop_last(), key);
        assert forall|i: int| 0 <= i < key_index(entries, key) implies (
        #[trigger] entries[i]).0 != key by {
            assert(i < entries.len() - 1 ==> entries.drop_last()[i] == entries[i]);
        }
    }
}

/// The position of the first entry with the given key; the number of entries
/// where there is none.
pub fn find_key(entries: &Vec<(String, Json)>, key: &str) -> (out: usize)
    ensures
        out == key_index(entries_view(entries@), key@),
        out <= entries@.len(),
{
    let mut i: usize = 0;
    while i < entries.len()
        invariant
            i <= entries@.len(),
            key_index(entries_view(entries@).take(i as int), key@) == i,
        decreases entries@.len() - i,
    {
        let ghost all = entries_view(entries@);
        assert(all.take(i + 1).drop_last() == all.take(i as int));
        assert(all.take(i + 1).last() == all[i as int]);
        if text::same(entries[i].0.as_str(), key) {
            proof {
                lemma_key_index_prefix(all, key@, i + 1);
            }
            return i;
        }
        i = i + 1;
    }
    assert(entries_view(entries@).take(i as int) == entries_view(entries@));
    i
}

proof fn lemma_key_index_prefix(entries: Seq<(Seq<char>, JsonView)>, key: Seq<char>, n: int)
    requires
        0 <= n <= entries.len(),
        key_index(entries.take(n), key) < n,
    ensures
        key_index(entries, key) == key_index(entries.take(n), key),
    decreases entries.len() - n,
{
    if n < entries.len() {
        assert(entries.take(n + 1).drop_last() == entries.take(n));
        lemma_key_index_prefix(entries, key, n + 1);
    } else {
        assert(entries.take(n) == entries);
    }
}

impl Json {
    /// What stands under a key of an object.
    pub fn get(&self, key: &str) -> (out: Option<&Json>)
        ensures
            opt_json(out) == field(self@, key@),
    {
        match self {
            Json::Object(entries) => {
                let at: usize = find_key(entries, key);
                if at < entries.len() {
                    Some(&entries[at].1)
                } else {
                    None
                }
            },
            _ => None,
        }
    }

    /// The text of a document that is a text.
    pub fn as_text(&self) -> (out: Option<&String>)
        ensures
            match out {
                Some(s) => text_of(Some(self@)) == Some(s@),
                None => text_of(Some(self@)) is None,
            },
    {
        match self {
            Json::Text(s) => Some(s),
            _ => None,
        }
    }

    /// The number of a document that is an unsigned integer.
    pub fn as_unsigned(&self) -> (out: Option<u64>)
        ensures
            out == unsigned_of(Some(self@)),
    {
        match self {
            Json::Unsigned(n) => Some(*n),
            _ => None,
        }
    }
}

/// The text under a key, where there is one.
pub fn text_field<'a>(value: &'a Json, key: &str) -> (out: Option<&'a String>)
    ensures
        match out {
            Some(s) => text_of(field(value@, key@)) == Some(s@),
            None => text_of(field(value@, key@)) is None,
        },
{
    match value.get(key) {
        Some(found) => found.as_text(),
        None => None,
    }
}

/// The unsigned integer under a key, where there is one.
pub fn unsigned_field(value: &Json, key: &str) -> (out: Option<u64>)
    ensures
        out == unsigned_of(field(value@, key@)),
{
    match value.get(key) {
        Some(found) => found.as_unsigned(),
        None => None,
    }
}

// ------------------------------------------------------------------ editing

/// Whether the keys of an object stand in strictly increasing order.
pub open spec fn sorted_keys(entries: Seq<(Seq<char>, JsonView)>) -> bool {
    forall|i: int, j: int|
        #![trigger entries[i], entries[j]]
        0 <= i < j < entries.len() ==> text::text_lt(entries[i].0, entries[j].0)
}

/// The position at which a key stands, or would stand, among sorted keys: that
/// of the first key that is not smaller.
pub open spec fn slot(entries: Seq<(Seq<char>, JsonView)>, key: Seq<char>) -> int
    decreases entries.len(),
{
    if entries.len() == 0 {
        0
    } else {
        let before = slot(entries.drop_last(), key);
        if before < entries.len() - 1 {
            before
        } else if text::text_lt(entries.last().0, key) {
            entries.len() as int
        } else {
            entries.len() - 1
        }
    }
}

/// The entries with a key set to a value: replaced where the key is there,
/// added at its place in the order where it is not.
pub open spec fn set_key(
    entries: Seq<(Seq<char>, JsonView)>,
    key: Seq<char>,
    value: JsonView,
) -> Seq<(Seq<char>, JsonView)> {
    let at = key_index(entries, key);
    if at < entries.len() {
        entries.update(at, (key, value))
    } else {
        entries.insert(slot(entries, key), (key, value))
    }
}

/// No key stands before the slot that is not smaller; the one at it is not
/// smaller.
pub proof fn lemma_slot(entries: Seq<(Seq<char>, JsonView)>, key: Seq<char>)
    ensures
        0 <= slot(entries, key) <= entries.len(),
        forall|i: int|
            0 <= i < slot(entries, key) ==> text::text_lt((#[trigger] entries[i]).0, key),
        slot(entries, key) < entries.len() ==> !text::text_lt(
            entries[slot(entries, key)].0,
            key,
        ),
    decreases entries.len(),
{
    if entries.len() > 0 {
        lemma_slot(entries.drop_last(), key);
        assert forall|i: int| 0 <= i < slot(entries, key) implies text::text_lt(
            (#[trigger] entries[i]).0,
            key,
        ) by {
            assert(i < entries.len() - 1 ==> entries.drop_last()[i] == entries[i]);
        }
    }
}

/// A key's first entry is where `key_index` finds it.
pub proof fn lemma_key_index_is(entries: Seq<(Seq<char>, JsonView)>, key: Seq<char>, at: int)
    requires
        0 <= at <= entries.len(),
        at < entries.len() ==> entries[at].0 == key,
        forall|i: int| 0 <= i < at ==> (#[trigger] entries[i]).0 != key,
    ensures
        key_index(entries, key) == at,
{
    lemma_key_index(entries, key);
    let found = key_index(entries, key);
    if found < at {
        assert(entries[found].0 != key);
    } else if at < found {
        assert(entries[at].0 == key);
    }
}

/// Setting a key keeps the keys sorted.
pub proof fn lemma_set_key_sorted(
    entries: Seq<(Seq<char>, JsonView)>,
    key: Seq<char>,
    value: JsonView,
)
    requires
        sorted_keys(entries),
    ensures
        sorted_keys(set_key(entries, key, value)),
{
    lemma_slot(entries, key);
    lemma_key_index(entries, key);
    let after = set_key(entries, key, value);
    if key_index(entries, key) < entries.len() {
        assert forall|i: int, j: int|
            #![trigger after[i], after[j]]
            0 <= i < j < after.len() implies text::text_lt(after[i].0, after[j].0) by {
            assert(after[i].0 == entries[i].0);
            assert(after[j].0 == entries[j].0);
        }
    } else {
        let at = slot(entries, key);
        if at < entries.len() {
            text::lemma_text_order_total(entries[at].0, key);
        }
        assert forall|i: int, j: int|
            #![trigger after[i], after[j]]
            0 <= i < j < after.len() implies text::text_lt(after[i].0, after[j].0) by {
            if i < at && j > at {
                assert(after[i] == entries[i]);
                assert(after[j] == entries[j - 1]);
            } else if i < at && j == at {
                assert(after[i] == entries[i]);
            } else if i == at {
                assert(after[j] == entries[j - 1]);
                if j - 1 > at {
                    assert(text::text_lt(entries[at].0, entries[j - 1].0));
                    text::lemma_text_order_transitive(key, entries[at].0, entries[j - 1].0);
                }
            } else if i > at {
                assert(after[i] == entries[i - 1]);
                assert(after[j] == entries[j - 1]);
            } else {
                assert(after[i] == entries[i]);
                assert(after[j] == entries[j]);
            }
        }
    }
}

/// What was set under a key is found under it.
pub proof fn law_set_key_is_found(
    entries: Seq<(Seq<char>, JsonView)>,
    key: Seq<char>,
    value: JsonView,
)
    ensures
        field(JsonView::Object(set_key(entries, key, value)), key) == Some(value),
{
    let after = set_key(entries, key, value);
    lemma_key_index(entries, key);
    lemma_slot(entries, key);
    let at = if key_index(entries, key) < entries.len() {
        key_index(entries, key)
    } else {
        slot(entries, key)
    };
    assert forall|i: int| 0 <= i < at implies (#[trigger] after[i]).0 != key by {
        assert(after[i] == entries[i]);
    }
    lemma_key_index_is(after, key, at);
}

/// Setting a key leaves what stands under every other key as it was.
pub proof fn law_set_key_is_local(
    entries: Seq<(Seq<char>, JsonView)>,
    key: Seq<char>,
    value: JsonView,
    other: Seq<char>,
)
    requires
        other != key,
    ensures
        field(JsonView::Object(set_key(entries, key, value)), other) == field(
            JsonView::Object(entries),
            other,
        ),
{
    let after = set_key(entries, key, value);
    lemma_key_index(entries, key);
    lemma_key_index(entries, other);
    lemma_slot(entries, key);
    let at = slot(entries, key);
    let before = key_index(entries, other);
    let replaced = key_index(entries, key) < entries.len();
    let there = if replaced || (before < at && before < entries.len()) {
        before
    } else {
        before + 1
    };
    assert forall|i: int| 0 <= i < there implies (#[trigger] after[i]).0 != other by {
        if replaced {
            if i != key_index(entries, key) {
                assert(after[i] == entries[i]);
            }
        } else if i < at {
            assert(after[i] == entries[i]);
        } else if i > at {
            assert(after[i] == entries[i - 1]);
        }
    }
    if before < entries.len() {
        assert(after[there] == entries[before]);
    }
    lemma_key_index_is(after, other, there);
}

/// The position at which a key stands, or would stand, among sorted keys.
fn find_slot(entries: &Vec<(String, Json)>, key: &str) -> (out: usize)
    ensures
        out == slot(entries_view(entries@), key@),
        out <= entries@.len(),
{
    let ghost all = entries_view(entries@);
    let mut i: usize = 0;
    while i < entries.len()
        invariant
            i <= entries@.len(),
            all == entries_view(entries@),
            slot(all.take(i as int), key@) == i,
        decreases entries@.len() - i,
    {
        assert(all.take(i + 1).drop_last() == all.take(i as int));
        assert(all.take(i + 1).last() == all[i as int]);
        if !text::text_less(entries[i].0.as_str(), key) {
            proof {
                lemma_slot_prefix(all, key@, i + 1);
            }
            return i;
        }
        i = i + 1;
    }
    assert(all.take(i as int) == all);
    i
}

proof fn lemma_slot_prefix(entries: Seq<(Seq<char>, JsonView)>, key: Seq<char>, n: int)
    requires
        0 <= n <= entries.len(),
        slot(entries.take(n), key) < n,
    ensures
        slot(entries, key) == slot(entries.take(n), key),
    decreases entries.len() - n,
{
    if n < entries.len() {
        assert(entries.take(n + 1).drop_last() == entries.take(n));
        lemma_slot_prefix(entries, key, n + 1);
    } else {
        assert(entries.take(n) == entries);
    }
}

/// Sets a key of an object to a value.
pub fn put_key(entries: &mut Vec<(String, Json)>, key: &str, value: Json)
    ensures
        entries_view(final(entries)@) == set_key(entries_view(old(entries)@), key@, value@),
{
    let ghost before = entries_view(entries@);
    let at: usize = find_key(entries, key);
    if at < entries.len() {
        entries.set(at, (key.to_owned(), value));
    } else {
        let free: usize = find_slot(entries, key);
        entries.insert(free, (key.to_owned(), value));
    }
    assert(entries_view(entries@) =~= set_key(before, key@, value@));
}

/// Takes what stands under a key out of an object's entries.
pub fn take_key(entries: &mut Vec<(String, Json)>, key: &str) -> (out: Option<Json>)
    ensures
        match out {
            Some(value) => field(JsonView::Object(entries_view(old(entries)@)), key@) == Some(
                value@,
            ) && entries_view(final(entries)@) == entries_view(old(entries)@).remove(
                key_index(entries_view(old(entries)@), key@),
            ),
            None => field(JsonView::Object(entries_view(old(entries)@)), key@) is None
                && final(entries)@ == old(entries)@,
        },
{
    let ghost before = entries_view(entries@);
    let at: usize = find_key(entries, key);
    if at < entries.len() {
        let (_, value): (String, Json) = entries.remove(at);
        assert(entries_view(entries@) =~= before.remove(at as int));
        Some(value)
    } else {
        None
    }
}

/// A key that is taken out of an object with distinct keys and set again was
/// only replaced.
pub proof fn lemma_take_then_set(
    entries: Seq<(Seq<char>, JsonView)>,
    key: Seq<char>,
    value: JsonView,
)
    requires
        sorted_keys(entries),
        key_index(entries, key) < entries.len(),
    ensures
        set_key(entries.remove(key_index(entries, key)), key, value) == set_key(
            entries,
            key,
            value,
        ),
{
    let at = key_index(entries, key);
    let less = entries.remove(at);
    lemma_key_index(entries, key);
    lemma_slot(less, key);
    text::lemma_text_order_total(key, key);
    assert forall|i: int| 0 <= i < less.len() implies (#[trigger] less[i]).0 != key by {
        if i < at {
            assert(less[i] == entries[i]);
        } else {
            assert(less[i] == entries[i + 1]);
            assert(text::text_lt(entries[at].0, entries[i + 1].0));
        }
    }
    lemma_key_index_is(less, key, less.len() as int);
    let free = slot(less, key);
    if free < at {
        assert(less[free] == entries[free]);
        assert(text::text_lt(entries[free].0, entries[at].0));
    } else if at < free {
        assert(less[at] == entries[at + 1]);
        assert(text::text_lt(entries[at].0, entries[at + 1].0));
        text::lemma_text_order_total(entries[at + 1].0, key);
    }
    assert(less.insert(at, (key, value)) =~= entries.update(at, (key, value)));
}

/// The entries of a document that is an object; none of any other.
pub open spec fn object_entries(value: Option<JsonView>) -> Seq<(Seq<char>, JsonView)> {
    match value {
        Some(JsonView::Object(entries)) => entries,
        _ => Seq::empty(),
    }
}

/// The items of a document that is a list; none of any other.
pub open spec fn list_items(value: Option<JsonView>) -> Seq<JsonView> {
    match value {
        Some(JsonView::List(items)) => items,
        _ => Seq::empty(),
    }
}

/// Takes the object under a key out of an object's entries. What stands under
/// the key is to be set again.
pub fn take_object(entries: &mut Vec<(String, Json)>, key: &str) -> (out: Vec<(String, Json)>)
    requires
        sorted_keys(entries_view(old(entries)@)),
    ensures
        entries_view(out@) == object_entries(
            field(JsonView::Object(entries_view(old(entries)@)), key@),
        ),
        forall|value: JsonView|
            #[trigger] set_key(entries_view(final(entries)@), key@, value) == set_key(
                entries_view(old(entries)@),
                key@,
                value,
            ),
{
    let ghost before = entries_view(entries@);
    let taken: Option<Json> = take_key(entries, key);
    proof {
        assert forall|value: JsonView|
            #[trigger] set_key(entries_view(entries@), key@, value) == set_key(
                before,
                key@,
                value,
            ) by {
            if taken is Some {
                lemma_take_then_set(before, key@, value);
            }
        }
    }
    match taken {
        Some(Json::Object(inner)) => inner,
        _ => {
            let none: Vec<(String, Json)> = Vec::new();
            assert(entries_view(none@) =~= Seq::empty());
            none
        },
    }
}

/// Takes the list under a key out of an object's entries. What stands under
/// the key is to be set again.
pub fn take_list(entries: &mut Vec<(String, Json)>, key: &str) -> (out: Vec<Json>)
    requires
        sorted_keys(entries_view(old(entries)@)),
    ensures
        list_view(out@) == list_items(
            field(JsonView::Object(entries_view(old(entries)@)), key@),
        ),
        forall|value: JsonView|
            #[trigger] set_key(entries_view(final(entries)@), key@, value) == set_key(
                entries_view(old(entries)@),
                key@,
                value,
            ),
{
    let ghost before = entries_view(entries@);
    let taken: Option<Json> = take_key(entries, key);
    proof {
        assert forall|value: JsonView|
            #[trigger] set_key(entries_view(entries@), key@, value) == set_key(
                before,
                key@,
                value,
            ) by {
            if taken is Some {
                lemma_take_then_set(before, key@, value);
            }
        }
    }
    match taken {
        Some(Json::List(items)) => items,
        _ => {
            let none: Vec<Json> = Vec::new();
            assert(list_view(none@) =~= Seq::empty());
            none
        },
    }
}

/// A list of texts as a document.
pub open spec fn texts_json(list: Seq<Seq<char>>) -> JsonView {
    JsonView::List(list.map_values(|s: Seq<char>| JsonView::Text(s)))
}

/// A list of texts as a document.
pub fn json_texts(list: &Vec<String>) -> (out: Json)
    ensures
        out@ == texts_json(text::views(list@)),
{
    let ghost all = text::views(list@).map_values(|s: Seq<char>| JsonView::Text(s));
    let mut items: Vec<Json> = Vec::new();
    let mut i: usize = 0;
    while i < list.len()
        invariant
            i <= list@.len(),
            all == text::views(list@).map_values(|s: Seq<char>| JsonView::Text(s)),
            list_view(items@) == all.take(i as int),
        decreases list@.len() - i,
    {
        let ghost done = list_view(items@);
        items.push(Json::Text(list[i].clone()));
        assert(list_view(items@) =~= done.push(all[i as int]));
        assert(all.take(i + 1) =~= all.take(i as int).push(all[i as int]));
        i = i + 1;
    }
    assert(all.take(i as int) =~= all);
    Json::List(items)
}

// ------------------------------------------------------------------ parsing

/// A parsed JSON value of `serde_json`.
#[verifier::external_type_specification]
#[verifier::external_body]
pub struct ExValue(serde_json::Value);

/// A parsed TOML value of `toml`.
#[verifier::external_type_specification]
#[verifier::external_body]
pub struct ExTomlValue(toml::Value);

/// What a parsed JSON value holds.
pub uninterp spec fn value_contents(value: serde_json::Value) -> JsonView;

/// What a parsed TOML value holds.
pub uninterp spec fn toml_contents(value: toml::Value) -> JsonView;

/// The document that a JSON text denotes; nothing where the text is not JSON.
pub uninterp spec fn json_document(text: Seq<char>) -> Option<JsonView>;

/// The table that a TOML text denotes; nothing where the text is not TOML.
pub uninterp spec fn toml_document(text: Seq<char>) -> Option<JsonView>;

/// The indented JSON text of a document.
pub uninterp spec fn json_text(value: JsonView) -> Seq<char>;

/// The JSON text of a document, on one line.
pub uninterp spec fn json_line(value: JsonView) -> Seq<char>;

/// The TOML text of a table; nothing where it has none.
pub uninterp spec fn toml_text(value: JsonView) -> Option<Seq<char>>;

/// The two formats of settings documents.
#[derive(Debug, Clone, Copy, PartialEq, Eq, Structural)]
pub enum Format {
    Json,
    Toml,
}

/// Whether a document is one of the given format: objects have sorted keys,
/// and every scalar is one that the format has.
pub open spec fn is_of(value: JsonView, format: Format) -> bool
    decreases value,
{
    match value {
        JsonView::Null => format is Json,
        JsonView::Unsigned(_) => format is Json,
        JsonView::Integer(n) => format is Toml || n < 0,
        JsonView::Text(_) => true,
        JsonView::Other(Scalar::Json(v)) => format is Json && value_contents(v)
            == JsonView::Other(Scalar::Json(v)),
        JsonView::Other(Scalar::Toml(v)) => format is Toml && toml_contents(v)
            == JsonView::Other(Scalar::Toml(v)),
        JsonView::List(items) => forall|i: int|
            0 <= i < items.len() ==> is_of(#[trigger] items[i], format),
        JsonView::Object(entries) => sorted_keys(entries) && forall|i: int|
            0 <= i < entries.len() ==> is_of((#[trigger] entries[i]).1, format),
    }
}

/// Whether a document holds nothing but texts, whole numbers and nulls, in lists
/// and objects that nest at most `levels` deep.
pub open spec fn plain_within(value: JsonView, levels: nat) -> bool
    decreases value,
{
    match value {
        JsonView::Null => true,
        JsonView::Unsigned(_) => true,
        JsonView::Text(_) => true,
        JsonView::Integer(n) => n < 0,
        JsonView::Other(_) => false,
        JsonView::List(items) => levels > 0 && forall|i: int|
            0 <= i < items.len() ==> plain_within(#[trigger] items[i], (levels - 1) as nat),
        JsonView::Object(entries) => levels > 0 && forall|i: int|
            0 <= i < entries.len() ==> plain_within(
                (#[trigger] entries[i]).1,
                (levels - 1) as nat,
            ),
    }
}

/// Whether the JSON text of a document is known to read back as the document:
/// it is plain, and the parser's limit on nesting does not refuse it.
pub open spec fn reads_back(value: JsonView) -> bool {
    plain_within(value, 127)
}

/// The items of a list of a format are of that format.
pub proof fn lemma_list_format(items: Seq<JsonView>, format: Format)
    requires
        is_of(JsonView::List(items), format),
    ensures
        forall|i: int| 0 <= i < items.len() ==> is_of(#[trigger] items[i], format),
{
    assert(JsonView::List(items)->List_0 == items);
}

/// Setting a key to a document of a format keeps an object one of that format.
pub proof fn lemma_set_key_format(
    entries: Seq<(Seq<char>, JsonView)>,
    key: Seq<char>,
    value: JsonView,
    format: Format,
)
    requires
        is_of(JsonView::Object(entries), format),
        is_of(value, format),
    ensures
        is_of(JsonView::Object(set_key(entries, key, value)), format),
{
    let after = set_key(entries, key, value);
    let at = slot(entries, key);
    lemma_slot(entries, key);
    lemma_key_index(entries, key);
    lemma_set_key_sorted(entries, key, value);
    assert forall|i: int| 0 <= i < after.len() implies is_of(
        (#[trigger] after[i]).1,
        format,
    ) by {
        if key_index(entries, key) < entries.len() {
            if i != key_index(entries, key) {
                assert(after[i] == entries[i]);
            }
        } else if i < at {
            assert(after[i] == entries[i]);
        } else if i > at {
            assert(after[i] == entries[i - 1]);
        }
    }
}

/// The top level of a parsed JSON value.
pub enum ValueParts {
    Null,
    Unsigned(u64),
    Negative(i64),
    Scalar(serde_json::Value),
    Text(String),
    List(Vec<serde_json::Value>),
    Object(Vec<(String, serde_json::Value)>),
}

/// What the top level of a parsed JSON value holds.
pub open spec fn parts_contents(parts: ValueParts) -> JsonView {
    match parts {
        ValueParts::Null => JsonView::Null,
        ValueParts::Unsigned(n) => JsonView::Unsigned(n),
        ValueParts::Negative(n) => JsonView::Integer(n),
        ValueParts::Scalar(v) => JsonView::Other(Scalar::Json(v)),
        ValueParts::Text(s) => JsonView::Text(s@),
        ValueParts::List(items) => JsonView::List(
            Seq::new(items@.len(), |i: int| value_contents(items@[i])),
        ),
        ValueParts::Object(entries) => JsonView::Object(
            Seq::new(entries@.len(), |i: int| (entries@[i].0@, value_contents(entries@[i].1))),
        ),
    }
}

/// Whether an object's keys are in order, a negative number is one and a scalar
/// is one.
pub open spec fn parts_wf(parts: ValueParts) -> bool {
    match parts {
        ValueParts::Negative(n) => n < 0,
        ValueParts::Scalar(v) => value_contents(v) == JsonView::Other(Scalar::Json(v)),
        ValueParts::Object(entries) => sorted_keys(parts_contents(parts)->Object_0),
        _ => true,
    }
}

/// The top level of a parsed TOML value.
pub enum TomlParts {
    Integer(i64),
    Scalar(toml::Value),
    Text(String),
    List(Vec<toml::Value>),
    Object(Vec<(String, toml::Value)>),
}

/// What the top level of a parsed TOML value holds.
pub open spec fn toml_parts_contents(parts: TomlParts) -> JsonView {
    match parts {
        TomlParts::Integer(n) => JsonView::Integer(n),
        TomlParts::Scalar(v) => JsonView::Other(Scalar::Toml(v)),
        TomlParts::Text(s) => JsonView::Text(s@),
        TomlParts::List(items) => JsonView::List(
            Seq::new(items@.len(), |i: int| toml_contents(items@[i])),
        ),
        TomlParts::Object(entries) => JsonView::Object(
            Seq::new(entries@.len(), |i: int| (entries@[i].0@, toml_contents(entries@[i].1))),
        ),
    }
}

/// Whether a table's keys are in order and a scalar is one.
pub open spec fn toml_parts_wf(parts: TomlParts) -> bool {
    match parts {
        TomlParts::Scalar(v) => toml_contents(v) == JsonView::Other(Scalar::Toml(v)),
        TomlParts::Object(entries) => sorted_keys(toml_parts_contents(parts)->Object_0),
        _ => true,
    }
}

/// `serde_json::from_str` parses a JSON text into a value, or fails. Which
/// document a text denotes is a function of the text alone.
#[verifier::external_body]
fn parse_value(text: &str) -> (out: Option<serde_json::Value>)
    ensures
        match out {
            Some(value) => json_document(text@) == Some(value_contents(value)),
            None => json_document(text@) is None,
        },
{
    serde_json::from_str::<serde_json::Value>(text).ok()
}

/// Takes a `serde_json::Value` apart by its variants. `Number::as_u64` gives
/// the number where it is an unsigned 64-bit integer, and of the others
/// `Number::as_i64` those that are negative integers of 64 bits. An object's
/// entries come in the order of their keys, since its map is a `BTreeMap`.
#[verifier::external_body]
fn open_value(value: serde_json::Value) -> (out: ValueParts)
    ensures
        value_contents(value) == parts_contents(out),
        parts_wf(out),
{
    match value {
        serde_json::Value::Null => ValueParts::Null,
        serde_json::Value::Number(n) => match (n.as_u64(), n.as_i64()) {
            (Some(k), _) => ValueParts::Unsigned(k),
            (None, Some(k)) => ValueParts::Negative(k),
            (None, None) => ValueParts::Scalar(serde_json::Value::Number(n)),
        },
        serde_json::Value::Bool(b) => ValueParts::Scalar(serde_json::Value::Bool(b)),
        serde_json::Value::String(s) => ValueParts::Text(s),
        serde_json::Value::Array(items) => ValueParts::List(items),
        serde_json::Value::Object(map) => ValueParts::Object(map.into_iter().collect()),
    }
}

/// Puts a `serde_json::Value` together from its parts: `Value::from` on an
/// unsigned and on a negative number, the variants' constructors on the rest. An
/// object's map keeps entries that are in the order of their keys as they are.
#[verifier::external_body]
fn close_value(parts: ValueParts) -> (out: serde_json::Value)
    requires
        parts_wf(parts),
    ensures
        value_contents(out) == parts_contents(parts),
{
    match parts {
        ValueParts::Null => serde_json::Value::Null,
        ValueParts::Unsigned(n) => serde_json::Value::from(n),
        ValueParts::Negative(n) => serde_json::Value::from(n),
        ValueParts::Scalar(v) => v,
        ValueParts::Text(s) => serde_json::Value::String(s),
        ValueParts::List(items) => serde_json::Value::Array(items),
        ValueParts::Object(entries) => serde_json::Value::Object(entries.into_iter().collect()),
    }
}

/// `serde_json::to_string_pretty` gives the indented JSON text of a value,
/// which is a function of what the value holds. It does not fail on a value.
/// `serde_json::from_str` reads that text as what the value holds, where this is
/// plain and nests less than 128 deep. Of fractional numbers and of booleans
/// nothing is said.
#[verifier::external_body]
fn print_value(value: &serde_json::Value) -> (out: String)
    ensures
        out@ == json_text(value_contents(*value)),
        reads_back(value_contents(*value)) ==> json_document(out@) == Some(
            value_contents(*value),
        ),
{
    serde_json::to_string_pretty(value).unwrap_or_default()
}

/// `serde_json::to_string` gives the JSON text of a value on one line, which is a
/// function of what the value holds. It does not fail on a value.
/// `serde_json::from_str` reads that text as what the value holds, where this is
/// plain and nests less than 128 deep. Of fractional numbers and of booleans
/// nothing is said.
#[verifier::external_body]
pub(crate) fn print_value_line(value: &serde_json::Value) -> (out: String)
    ensures
        out@ == json_line(value_contents(*value)),
        reads_back(value_contents(*value)) ==> json_document(out@) == Some(
            value_contents(*value),
        ),
{
    serde_json::to_string(value).unwrap_or_default()
}

/// `toml::from_str` parses a TOML text into a table, or fails. Which table a
/// text denotes is a function of the text alone.
#[verifier::external_body]
fn parse_table(text: &str) -> (out: Option<toml::Value>)
    ensures
        match out {
            Some(value) => toml_document(text@) == Some(toml_contents(value)),
            None => toml_document(text@) is None,
        },
{
    toml::from_str::<toml::Table>(text).ok().map(toml::Value::Table)
}

/// Takes a `toml::Value` apart by its variants. A table's entries come in the
/// order of their keys, since its map is a `BTreeMap`.
#[verifier::external_body]
fn open_table(value: toml::Value) -> (out: TomlParts)
    ensures
        toml_contents(value) == toml_parts_contents(out),
        toml_parts_wf(out),
{
    match value {
        toml::Value::String(s) => TomlParts::Text(s),
        toml::Value::Integer(n) => TomlParts::Integer(n),
        toml::Value::Float(f) => TomlParts::Scalar(toml::Value::Float(f)),
        toml::Value::Boolean(b) => TomlParts::Scalar(toml::Value::Boolean(b)),
        toml::Value::Datetime(d) => TomlParts::Scalar(toml::Value::Datetime(d)),
        toml::Value::Array(items) => TomlParts::List(items),
        toml::Value::Table(map) => TomlParts::Object(map.into_iter().collect()),
    }
}

/// Puts a `toml::Value` together from its parts by the variants' constructors.
/// A table's map keeps entries that are in the order of their keys as they are.
#[verifier::external_body]
fn close_table(parts: TomlParts) -> (out: toml::Value)
    requires
        toml_parts_wf(parts),
    ensures
        toml_contents(out) == toml_parts_contents(parts),
{
    match parts {
        TomlParts::Integer(n) => toml::Value::Integer(n),
        TomlParts::Scalar(v) => v,
        TomlParts::Text(s) => toml::Value::String(s),
        TomlParts::List(items) => toml::Value::Array(items),
        TomlParts::Object(entries) => toml::Value::Table(entries.into_iter().collect()),
    }
}

/// `toml::to_string_pretty` gives the TOML text of a table, or fails; either
/// is a function of what the table holds.
#[verifier::external_body]
fn print_table(value: &toml::Value) -> (out: Option<String>)
    ensures
        text::opt_view(out) == toml_text(toml_contents(*value)),
{
    toml::to_string_pretty(value).ok()
}

/// The document that a parsed JSON value holds.
fn json_of(value: serde_json::Value) -> (out: Json)
    ensures
        out@ == value_contents(value),
        is_of(out@, Format::Json),
    decreases value_contents(value),
{
    let ghost whole = value_contents(value);
    match open_value(value) {
        ValueParts::Null => Json::Null,
        ValueParts::Unsigned(n) => Json::Unsigned(n),
        ValueParts::Negative(n) => Json::Integer(n),
        ValueParts::Scalar(v) => Json::Other(Scalar::Json(v)),
        ValueParts::Text(s) => Json::Text(s),
        ValueParts::List(items) => {
            let ghost all = items@;
            let ghost inner = Seq::new(all.len(), |i: int| value_contents(all[i]));
            assert(whole == JsonView::List(inner));
            let mut out: Vec<Json> = Vec::new();
            for item in it: items
                invariant
                    it.seq() == all,
                    inner == Seq::new(all.len(), |i: int| value_contents(all[i])),
                    whole == JsonView::List(inner),
                    whole == value_contents(value),
                    list_view(out@) == inner.take(it.index()),
                    forall|i: int| 0 <= i < it.index() ==> is_of(#[trigger] inner[i], Format::Json),
            {
                let ghost done = list_view(out@);
                assert(decreases_to!(whole => whole->List_0));
                assert(decreases_to!(whole->List_0 => whole->List_0[it.index()]));
                out.push(json_of(item));
                assert(list_view(out@) =~= done.push(inner[it.index()]));
                assert(inner.take(it.index() + 1) =~= inner.take(it.index()).push(
                    inner[it.index()],
                ));
            }
            assert(inner.take(inner.len() as int) =~= inner);
            Json::List(out)
        },
        ValueParts::Object(entries) => {
            let ghost all = entries@;
            let ghost inner = Seq::new(
                all.len(),
                |i: int| (all[i].0@, value_contents(all[i].1)),
            );
            assert(whole == JsonView::Object(inner));
            let mut out: Vec<(String, Json)> = Vec::new();
            for entry in it: entries
                invariant
                    it.seq() == all,
                    inner == Seq::new(all.len(), |i: int| (all[i].0@, value_contents(all[i].1))),
                    whole == JsonView::Object(inner),
                    whole == value_contents(value),
                    entries_view(out@) == inner.take(it.index()),
                    forall|i: int|
                        0 <= i < it.index() ==> is_of((#[trigger] inner[i]).1, Format::Json),
            {
                let ghost done = entries_view(out@);
                let (key, item): (String, serde_json::Value) = entry;
                assert(decreases_to!(whole => whole->Object_0));
                assert(decreases_to!(whole->Object_0 => whole->Object_0[it.index()]));
                assert(decreases_to!(whole->Object_0[it.index()] => whole->Object_0[it.index()].1));
                out.push((key, json_of(item)));
                assert(entries_view(out@) =~= done.push(inner[it.index()]));
                assert(inner.take(it.index() + 1) =~= inner.take(it.index()).push(
                    inner[it.index()],
                ));
            }
            assert(inner.take(inner.len() as int) =~= inner);
            Json::Object(out)
        },
    }
}

/// The document that a parsed TOML value holds.
fn toml_json_of(value: toml::Value) -> (out: Json)
    ensures
        out@ == toml_contents(value),
        is_of(out@, Format::Toml),
    decreases toml_contents(value),
{
    let ghost whole = toml_contents(value);
    match open_table(value) {
        TomlParts::Integer(n) => Json::Integer(n),
        TomlParts::Scalar(v) => Json::Other(Scalar::Toml(v)),
        TomlParts::Text(s) => Json::Text(s),
        TomlParts::List(items) => {
            let ghost all = items@;
            let ghost inner = Seq::new(all.len(), |i: int| toml_contents(all[i]));
            assert(whole == JsonView::List(inner));
            let mut out: Vec<Json> = Vec::new();
            for item in it: items
                invariant
                    it.seq() == all,
                    inner == Seq::new(all.len(), |i: int| toml_contents(all[i])),
                    whole == JsonView::List(inner),
                    whole == toml_contents(value),
                    list_view(out@) == inner.take(it.index()),
                    forall|i: int| 0 <= i < it.index() ==> is_of(#[trigger] inner[i], Format::Toml),
            {
                let ghost done = list_view(out@);
                assert(decreases_to!(whole => whole->List_0));
                assert(decreases_to!(whole->List_0 => whole->List_0[it.index()]));
                out.push(toml_json_of(item));
                assert(list_view(out@) =~= done.push(inner[it.index()]));
                assert(inner.take(it.index() + 1) =~= inner.take(it.index()).push(
                    inner[it.index()],
                ));
            }
            assert(inner.take(inner.len() as int) =~= inner);
            Json::List(out)
        },
        TomlParts::Object(entries) => {
            let ghost all = entries@;
            let ghost inner = Seq::new(
                all.len(),
                |i: int| (all[i].0@, toml_contents(all[i].1)),
            );
            assert(whole == JsonView::Object(inner));
            let mut out: Vec<(String, Json)> = Vec::new();
            for entry in it: entries
                invariant
                    it.seq() == all,
                    inner == Seq::new(all.len(), |i: int| (all[i].0@, toml_contents(all[i].1))),
                    whole == JsonView::Object(inner),
                    whole == toml_contents(value),
                    entries_view(out@) == inner.take(it.index()),
                    forall|i: int|
                        0 <= i < it.index() ==> is_of((#[trigger] inner[i]).1, Format::Toml),
            {
                let ghost done = entries_view(out@);
                let (key, item): (String, toml::Value) = entry;
                assert(decreases_to!(whole => whole->Object_0));
                assert(decreases_to!(whole->Object_0 => whole->Object_0[it.index()]));
                assert(decreases_to!(whole->Object_0[it.index()] => whole->Object_0[it.index()].1));
                out.push((key, toml_json_of(item)));
                assert(entries_view(out@) =~= done.push(inner[it.index()]));
                assert(inner.take(it.index() + 1) =~= inner.take(it.index()).push(
                    inner[it.index()],
                ));
            }
            assert(inner.take(inner.len() as int) =~= inner);
            Json::Object(out)
        },
    }
}

/// The JSON value that holds a document.
pub fn value_of(value: Json) -> (out: serde_json::Value)
    requires
        is_of(value@, Format::Json),
    ensures
        value_contents(out) == value@,
    decreases value,
{
    let ghost whole = value;
    match value {
        Json::Null => close_value(ValueParts::Null),
        Json::Unsigned(n) => close_value(ValueParts::Unsigned(n)),
        Json::Integer(n) => close_value(ValueParts::Negative(n)),
        Json::Other(Scalar::Toml(_)) => close_value(ValueParts::Null),
        Json::Other(Scalar::Json(v)) => v,
        Json::Text(s) => close_value(ValueParts::Text(s)),
        Json::List(items) => {
            let ghost all = items@;
            let ghost inner = list_view(all);
            assert(whole@ == JsonView::List(inner));
            proof {
                lemma_list_format(inner, Format::Json);
            }
            let mut out: Vec<serde_json::Value> = Vec::new();
            for item in it: items
                invariant
                    it.seq() == all,
                    inner == list_view(all),
                    whole == Json::List(items),
                    whole == value,
                    all == items@,
                    forall|i: int| 0 <= i < inner.len() ==> is_of(#[trigger] inner[i], Format::Json),
                    out@.len() == it.index(),
                    forall|i: int|
                        0 <= i < it.index() ==> value_contents(#[trigger] out@[i]) == inner[i],
            {
                assert(inner[it.index()] == item@);
                assert(decreases_to!(whole => whole->List_0));
                assert(decreases_to!(whole->List_0 => whole->List_0@));
                assert(decreases_to!(whole->List_0@ => whole->List_0@[it.index()]));
                out.push(value_of(item));
            }
            assert(Seq::new(out@.len(), |i: int| value_contents(out@[i])) =~= inner);
            close_value(ValueParts::List(out))
        },
        Json::Object(entries) => {
            let ghost all = entries@;
            let ghost inner = entries_view(all);
            assert(whole@ == JsonView::Object(inner));
            let mut out: Vec<(String, serde_json::Value)> = Vec::new();
            for entry in it: entries
                invariant
                    it.seq() == all,
                    inner == entries_view(all),
                    whole == Json::Object(entries),
                    whole == value,
                    all == entries@,
                    forall|i: int|
                        0 <= i < inner.len() ==> is_of((#[trigger] inner[i]).1, Format::Json),
                    out@.len() == it.index(),
                    forall|i: int|
                        0 <= i < it.index() ==> ((#[trigger] out@[i]).0@, value_contents(out@[i].1))
                            == inner[i],
            {
                assert(inner[it.index()] == (entry.0@, entry.1@));
                assert(decreases_to!(whole => whole->Object_0));
                assert(decreases_to!(whole->Object_0 => whole->Object_0@));
                assert(decreases_to!(whole->Object_0@ => whole->Object_0@[it.index()]));
                assert(decreases_to!(whole->Object_0@[it.index()] => whole->Object_0@[it.index()].1));
                let (key, item): (String, Json) = entry;
                out.push((key, value_of(item)));
            }
            assert(Seq::new(out@.len(), |i: int| (out@[i].0@, value_contents(out@[i].1))) =~= inner);
            close_value(ValueParts::Object(out))
        },
    }
}

/// The TOML value that holds a document.
fn toml_value_of(value: Json) -> (out: toml::Value)
    requires
        is_of(value@, Format::Toml),
    ensures
        toml_contents(out) == value@,
    decreases value,
{
    let ghost whole = value;
    match value {
        Json::Integer(n) => close_table(TomlParts::Integer(n)),
        Json::Null => close_table(TomlParts::Integer(0)),
        Json::Unsigned(_) => close_table(TomlParts::Integer(0)),
        Json::Other(Scalar::Json(_)) => close_table(TomlParts::Integer(0)),
        Json::Other(Scalar::Toml(v)) => v,
        Json::Text(s) => close_table(TomlParts::Text(s)),
        Json::List(items) => {
            let ghost all = items@;
            let ghost inner = list_view(all);
            assert(whole@ == JsonView::List(inner));
            proof {
                lemma_list_format(inner, Format::Toml);
            }
            let mut out: Vec<toml::Value> = Vec::new();
            for item in it: items
                invariant
                    it.seq() == all,
                    inner == list_view(all),
                    whole == Json::List(items),
                    whole == value,
                    all == items@,
                    forall|i: int| 0 <= i < inner.len() ==> is_of(#[trigger] inner[i], Format::Toml),
                    out@.len() == it.index(),
                    forall|i: int|
                        0 <= i < it.index() ==> toml_contents(#[trigger] out@[i]) == inner[i],
            {
                assert(inner[it.index()] == item@);
                assert(decreases_to!(whole => whole->List_0));
                assert(decreases_to!(whole->List_0 => whole->List_0@));
                assert(decreases_to!(whole->List_0@ => whole->List_0@[it.index()]));
                out.push(toml_value_of(item));
            }
            assert(Seq::new(out@.len(), |i: int| toml_contents(out@[i])) =~= inner);
            close_table(TomlParts::List(out))
        },
        Json::Object(entries) => {
            let ghost all = entries@;
            let ghost inner = entries_view(all);
            assert(whole@ == JsonView::Object(inner));
            let mut out: Vec<(String, toml::Value)> = Vec::new();
            for entry in it: entries
                invariant
                    it.seq() == all,
                    inner == entries_view(all),
                    whole == Json::Object(entries),
                    whole == value,
                    all == entries@,
                    forall|i: int|
                        0 <= i < inner.len() ==> is_of((#[trigger] inner[i]).1, Format::Toml),
                    out@.len() == it.index(),
                    forall|i: int|
                        0 <= i < it.index() ==> ((#[trigger] out@[i]).0@, toml_contents(out@[i].1))
                            == inner[i],
            {
                assert(inner[it.index()] == (entry.0@, entry.1@));
                assert(decreases_to!(whole => whole->Object_0));
                assert(decreases_to!(whole->Object_0 => whole->Object_0@));
                assert(decreases_to!(whole->Object_0@ => whole->Object_0@[it.index()]));
                assert(decreases_to!(whole->Object_0@[it.index()] => whole->Object_0@[it.index()].1));
                let (key, item): (String, Json) = entry;
                out.push((key, toml_value_of(item)));
            }
            assert(Seq::new(out@.len(), |i: int| (out@[i].0@, toml_contents(out@[i].1))) =~= inner);
            close_table(TomlParts::Object(out))
        },
    }
}

/// The object without entries.
pub fn empty_object() -> (out: Json)
    ensures
        out@ == JsonView::Object(Seq::empty()),
        is_of(out@, Format::Json),
        is_of(out@, Format::Toml),
{
    let entries: Vec<(String, Json)> = Vec::new();
    assert(entries_view(entries@) =~= Seq::empty());
    Json::Object(entries)
}

/// Parses a JSON text.
pub fn parse_json(text: &str) -> (out: Option<Json>)
    ensures
        match out {
            Some(value) => json_document(text@) == Some(value@) && is_of(value@, Format::Json),
            None => json_document(text@) is None,
        },
{
    match parse_value(text) {
        Some(value) => Some(json_of(value)),
        None => None,
    }
}

/// Parses a TOML text.
pub fn parse_toml(text: &str) -> (out: Option<Json>)
    ensures
        match out {
            Some(value) => toml_document(text@) == Some(value@) && is_of(value@, Format::Toml),
            None => toml_document(text@) is None,
        },
{
    match parse_table(text) {
        Some(value) => Some(toml_json_of(value)),
        None => None,
    }
}

/// The indented JSON text of a document.
pub fn print_json(value: Json) -> (out: String)
    requires
        is_of(value@, Format::Json),
    ensures
        out@ == json_text(value@),
        reads_back(value@) ==> json_document(out@) == Some(value@),
{
    let built: serde_json::Value = value_of(value);
    print_value(&built)
}

/// The TOML text of a table.
pub fn print_toml(value: Json) -> (out: Option<String>)
    requires
        is_of(value@, Format::Toml),
    ensures
        text::opt_view(out) == toml_text(value@),
{
    let built: toml::Value = toml_value_of(value);
    print_table(&built)
}

/// What stands under a key of an object is the value of the first entry with that key;
/// nothing stands there where no entry has it, nor in anything but an object.
pub proof fn law_field_is_the_first_entry(
    entries: Seq<(Seq<char>, JsonView)>,
    key: Seq<char>,
    at: int,
    other: JsonView,
)
    ensures
        0 <= at < entries.len() && entries[at].0 == key && (forall|j: int|
            0 <= j < at ==> (#[trigger] entries[j]).0 != key) ==> field(
            JsonView::Object(entries),
            key,
        ) == Some(entries[at].1),
        (forall|j: int| 0 <= j < entries.len() ==> (#[trigger] entries[j]).0 != key) ==> field(
            JsonView::Object(entries),
            key,
        ) is None,
        !(other is Object) ==> field(other, key) is None,
{
    lemma_key_index(entries, key);
    let k = key_index(entries, key);
    if 0 <= at < entries.len() && entries[at].0 == key && (forall|j: int|
        0 <= j < at ==> (#[trigger] entries[j]).0 != key) {
        if k < at {
            assert(entries[k].0 != key);
        }
        if at < k {
            assert(entries[at].0 != key);
        }
    }
}

} // verus!
