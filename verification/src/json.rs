//! JSON values, and what they are as mathematical values.
use crate::text::same_text;
use vstd::prelude::*;

verus! {

/// A number of JSON, with the reading of it that `serde_json` gives.
#[verifier::external_type_specification]
#[verifier::external_body]
pub struct ExNumber(serde_json::Number);

/// A JSON value. An object holds its entries in order; of two entries with one key the later
/// counts.
#[derive(Debug, PartialEq)]
pub enum Json {
    Null,
    Bool(bool),
    Number(serde_json::Number),
    String(String),
    Array(Vec<Json>),
    Object(Vec<(String, Json)>),
}

/// What a number of JSON is: an integer, or a floating-point number given by its bits.
pub enum NumberView {
    PosInt(u64),
    NegInt(i64),
    Float(u64),
}

/// What a JSON value is.
#[verifier::ext_equal]
pub enum JsonView {
    Null,
    Bool(bool),
    Number(NumberView),
    String(Seq<char>),
    Array(Seq<JsonView>),
    Object(Map<Seq<char>, JsonView>),
}

/// What a `serde_json::Number` holds.
pub uninterp spec fn number_view(number: serde_json::Number) -> NumberView;

impl NumberView {
    /// The number as a signed integer of 64 bits, where it is one.
    pub open spec fn integer(self) -> Option<i64> {
        match self {
            NumberView::PosInt(n) => if n <= i64::MAX {
                Some(n as i64)
            } else {
                None
            },
            NumberView::NegInt(n) => Some(n),
            NumberView::Float(_) => None,
        }
    }
}

/// What the values of an array are.
pub open spec fn items_view(items: Seq<Json>) -> Seq<JsonView>
    decreases items,
{
    Seq::new(
        items.len(),
        |i: int|
            if 0 <= i < items.len() {
                items[i].json()
            } else {
                JsonView::Null
            },
    )
}

/// What the entries of an object are.
pub open spec fn entries_view(entries: Seq<(String, Json)>) -> Map<Seq<char>, JsonView>
    decreases entries,
{
    if entries.len() == 0 {
        Map::empty()
    } else {
        entries_view(entries.drop_last()).insert(entries.last().0@, entries.last().1.json())
    }
}

/// The value under a key among the entries of an object.
pub open spec fn entry(entries: Seq<(String, Json)>, key: Seq<char>) -> Option<Json>
    decreases entries.len(),
{
    if entries.len() == 0 {
        None
    } else if entries.last().0@ == key {
        Some(entries.last().1)
    } else {
        entry(entries.drop_last(), key)
    }
}

impl Json {
    /// What the value is.
    pub open spec fn json(self) -> JsonView
        decreases self,
    {
        match self {
            Json::Null => JsonView::Null,
            Json::Bool(b) => JsonView::Bool(b),
            Json::Number(n) => JsonView::Number(number_view(n)),
            Json::String(s) => JsonView::String(s@),
            Json::Array(items) => JsonView::Array(items_view(items@)),
            Json::Object(entries) => JsonView::Object(entries_view(entries@)),
        }
    }

    /// The value under a key, where this value is an object that holds the key.
    pub open spec fn field(self, key: Seq<char>) -> Option<Json> {
        match self {
            Json::Object(entries) => entry(entries@, key),
            _ => None,
        }
    }
}

impl View for Json {
    type V = JsonView;

    open spec fn view(&self) -> JsonView {
        self.json()
    }
}

impl JsonView {
    /// The value under a key, where this value is an object that holds the key.
    pub open spec fn field(self, key: Seq<char>) -> Option<JsonView> {
        match self {
            JsonView::Object(map) => if map.contains_key(key) {
                Some(map[key])
            } else {
                None
            },
            _ => None,
        }
    }

    /// The text of a string.
    pub open spec fn text(self) -> Option<Seq<char>> {
        match self {
            JsonView::String(s) => Some(s),
            _ => None,
        }
    }

    /// The values of an array.
    pub open spec fn items(self) -> Option<Seq<JsonView>> {
        match self {
            JsonView::Array(items) => Some(items),
            _ => None,
        }
    }

    /// The truth value of a boolean.
    pub open spec fn truth(self) -> Option<bool> {
        match self {
            JsonView::Bool(b) => Some(b),
            _ => None,
        }
    }

    /// The integer of a number, where it is one of 64 bits with a sign.
    pub open spec fn integer(self) -> Option<i64> {
        match self {
            JsonView::Number(n) => n.integer(),
            _ => None,
        }
    }

    /// The object with one entry set.
    pub open spec fn with(self, key: Seq<char>, value: JsonView) -> JsonView {
        match self {
            JsonView::Object(map) => JsonView::Object(map.insert(key, value)),
            _ => self,
        }
    }
}

/// The object without entries.
pub open spec fn empty_object() -> JsonView {
    JsonView::Object(Map::empty())
}

/// The number that a natural number of 64 bits is.
pub open spec fn natural(n: u64) -> JsonView {
    JsonView::Number(NumberView::PosInt(n))
}

/// A value that may be missing, and what stands for it.
pub open spec fn or_null(value: Option<JsonView>) -> JsonView {
    match value {
        Some(v) => v,
        None => JsonView::Null,
    }
}

/// The data of a reply.
pub open spec fn data_of(reply: JsonView) -> JsonView {
    or_null(reply.field("data"@))
}

/// Looking a key up among the entries is looking it up in what they are.
pub proof fn lemma_entry_view(entries: Seq<(String, Json)>, key: Seq<char>)
    ensures
        match entry(entries, key) {
            Some(v) => entries_view(entries).contains_key(key) && entries_view(entries)[key]
                == v.json(),
            None => !entries_view(entries).contains_key(key),
        },
    decreases entries.len(),
{
    if entries.len() > 0 && entries.last().0@ != key {
        lemma_entry_view(entries.drop_last(), key);
    }
}

/// Looking a key up in a value is looking it up in what the value is.
pub proof fn lemma_field_view(value: Json, key: Seq<char>)
    ensures
        match value.field(key) {
            Some(v) => value@.field(key) == Some(v@),
            None => value@.field(key) is None,
        },
{
    if let Json::Object(entries) = value {
        lemma_entry_view(entries@, key);
    }
}

/// Replacing the last entry of a key is setting the key.
proof fn lemma_entry_replaced(entries: Seq<(String, Json)>, at: int, pair: (String, Json))
    requires
        0 <= at < entries.len(),
        entries[at].0@ == pair.0@,
        forall|j: int| at < j < entries.len() ==> entries[j].0@ != pair.0@,
    ensures
        entries_view(entries.update(at, pair)) == entries_view(entries).insert(
            pair.0@,
            pair.1.json(),
        ),
    decreases entries.len(),
{
    let updated = entries.update(at, pair);
    if at == entries.len() - 1 {
        assert(updated.drop_last() =~= entries.drop_last());
        assert(entries_view(updated) =~= entries_view(entries).insert(pair.0@, pair.1.json()));
    } else {
        lemma_entry_replaced(entries.drop_last(), at, pair);
        assert(updated.drop_last() =~= entries.drop_last().update(at, pair));
        assert(entries_view(updated) =~= entries_view(entries).insert(pair.0@, pair.1.json()));
    }
}

/// `serde_json::Number::as_i64`: the number as an `i64`, where it is an integer in that range.
#[verifier::external_body]
fn number_as_i64(number: &serde_json::Number) -> (r: Option<i64>)
    ensures
        r == number_view(*number).integer(),
{
    number.as_i64()
}

/// `serde_json::Number::from`: the number that an unsigned integer is.
#[verifier::external_body]
fn number_from_u64(n: u64) -> (r: serde_json::Number)
    ensures
        number_view(r) == NumberView::PosInt(n),
{
    serde_json::Number::from(n)
}

/// `serde_json::Number::clone`: the same number again.
#[verifier::external_body]
pub(crate) fn number_clone(number: &serde_json::Number) -> (r: serde_json::Number)
    ensures
        r == *number,
{
    number.clone()
}

/// The value under a key among the entries of an object.
fn find<'a>(entries: &'a Vec<(String, Json)>, key: &str) -> (r: Option<&'a Json>)
    ensures
        match r {
            Some(v) => entry(entries@, key@) == Some(*v),
            None => entry(entries@, key@) is None,
        },
{
    let mut n: usize = entries.len();
    assert(entries@.take(n as int) =~= entries@);
    while 0 < n
        invariant
            n <= entries.len(),
            entry(entries@, key@) == entry(entries@.take(n as int), key@),
        decreases n,
    {
        if same_text(entries[n - 1].0.as_str(), key) {
            return Some(&entries[n - 1].1);
        }
        assert(entries@.take(n as int).drop_last() =~= entries@.take(n - 1));
        n = n - 1;
    }
    None
}

impl Json {
    /// The object without entries.
    pub fn object() -> (r: Json)
        ensures
            r@ == empty_object(),
    {
        let entries: Vec<(String, Json)> = Vec::new();
        assert(entries_view(entries@) =~= Map::empty());
        Json::Object(entries)
    }

    /// The array without values.
    pub fn array() -> (r: Json)
        ensures
            r@ == JsonView::Array(Seq::empty()),
    {
        let items: Vec<Json> = Vec::new();
        assert(items_view(items@) =~= Seq::empty());
        Json::Array(items)
    }

    /// The array of one value.
    pub fn singleton(value: Json) -> (r: Json)
        ensures
            r@ == JsonView::Array(seq![value@]),
    {
        let items: Vec<Json> = vec![value];
        assert(items_view(items@) =~= seq![value@]);
        Json::Array(items)
    }

    /// The string with the given text.
    pub fn string(text: &str) -> (r: Json)
        ensures
            r@ == JsonView::String(text@),
    {
        Json::String(text.to_owned())
    }

    /// The number that a natural number is.
    pub fn natural(n: u64) -> (r: Json)
        ensures
            r@ == natural(n),
    {
        Json::Number(number_from_u64(n))
    }

    /// The value under a key, where this value is an object that holds the key.
    pub fn get(&self, key: &str) -> (r: Option<&Json>)
        ensures
            match r {
                Some(v) => self.field(key@) == Some(*v) && self@.field(key@) == Some(v@),
                None => self.field(key@) is None && self@.field(key@) is None,
            },
    {
        proof {
            lemma_field_view(*self, key@);
        }
        match self {
            Json::Object(entries) => find(entries, key),
            _ => None,
        }
    }

    /// The text of a string.
    pub fn as_str(&self) -> (r: Option<&str>)
        ensures
            match r {
                Some(s) => self@.text() == Some(s@),
                None => self@.text() is None,
            },
    {
        match self {
            Json::String(s) => Some(s.as_str()),
            _ => None,
        }
    }

    /// The values of an array.
    pub fn as_array(&self) -> (r: Option<&Vec<Json>>)
        ensures
            match r {
                Some(items) => *self == Json::Array(*items) && self@.items() == Some(
                    items_view(items@),
                ),
                None => self@.items() is None,
            },
    {
        match self {
            Json::Array(items) => Some(items),
            _ => None,
        }
    }

    /// The truth value of a boolean.
    pub fn as_bool(&self) -> (r: Option<bool>)
        ensures
            r == self@.truth(),
    {
        match self {
            Json::Bool(b) => Some(*b),
            _ => None,
        }
    }

    /// The integer of a number, where it is one of 64 bits with a sign.
    pub fn as_i64(&self) -> (r: Option<i64>)
        ensures
            r == self@.integer(),
    {
        match self {
            Json::Number(n) => number_as_i64(n),
            _ => None,
        }
    }

    /// The same value again.
    pub fn copy(&self) -> (r: Json)
        ensures
            r@ == self@,
        decreases self,
    {
        match self {
            Json::Null => Json::Null,
            Json::Bool(b) => Json::Bool(*b),
            Json::Number(n) => Json::Number(number_clone(n)),
            Json::String(s) => Json::String(s.clone()),
            Json::Array(items) => {
                let mut out: Vec<Json> = Vec::new();
                let mut i: usize = 0;
                while i < items.len()
                    invariant
                        *self == Json::Array(*items),
                        i <= items.len(),
                        items_view(out@) == items_view(items@.take(i as int)),
                        out.len() == i,
                    decreases items.len() - i,
                {
                    let ghost before = out@;
                    assert(decreases_to!(*self => self->Array_0));
                    assert(decreases_to!(*items => items@));
                    assert(decreases_to!(items@ => items@[i as int]));
                    out.push(items[i].copy());
                    proof {
                        assert forall|j: int| 0 <= j < i + 1 implies #[trigger] items_view(out@)[j]
                            == items_view(items@.take(i + 1))[j] by {
                            if j < i {
                                assert(items_view(before)[j] == items_view(
                                    items@.take(i as int),
                                )[j]);
                            }
                        }
                        assert(items_view(out@) =~= items_view(items@.take(i + 1)));
                    }
                    i = i + 1;
                }
                assert(items@.take(i as int) =~= items@);
                Json::Array(out)
            },
            Json::Object(entries) => {
                let mut out: Vec<(String, Json)> = Vec::new();
                let mut i: usize = 0;
                while i < entries.len()
                    invariant
                        *self == Json::Object(*entries),
                        i <= entries.len(),
                        entries_view(out@) == entries_view(entries@.take(i as int)),
                    decreases entries.len() - i,
                {
                    let ghost before = out@;
                    assert(decreases_to!(*self => self->Object_0));
                    assert(decreases_to!(*entries => entries@));
                    assert(decreases_to!(entries@ => entries@[i as int]));
                    assert(decreases_to!(entries@[i as int] => entries@[i as int].1));
                    out.push((entries[i].0.clone(), entries[i].1.copy()));
                    assert(out@.drop_last() =~= before);
                    assert(entries@.take(i + 1).drop_last() =~= entries@.take(i as int));
                    i = i + 1;
                }
                assert(entries@.take(i as int) =~= entries@);
                Json::Object(out)
            },
        }
    }

    /// The value under a key, taken out of this value, where this value is an object that holds
    /// the key.
    pub fn take(self, key: &str) -> (r: Option<Json>)
        ensures
            r == self.field(key@),
    {
        match self {
            Json::Object(entries) => {
                let mut entries = entries;
                while 0 < entries.len()
                    invariant
                        self.field(key@) == entry(entries@, key@),
                    decreases entries.len(),
                {
                    if let Some((name, value)) = entries.pop() {
                        if same_text(name.as_str(), key) {
                            return Some(value);
                        }
                    }
                }
                None
            },
            _ => None,
        }
    }

    /// The object with one entry set.
    pub fn with(self, key: &str, value: Json) -> (r: Json)
        ensures
            r@ == self@.with(key@, value@),
    {
        match self {
            Json::Object(entries) => {
                let mut entries = entries;
                let ghost before = entries@;
                let mut n: usize = entries.len();
                while 0 < n
                    invariant
                        n <= entries.len(),
                        entries@ == before,
                        self@ == JsonView::Object(entries_view(before)),
                        forall|j: int| n <= j < entries.len() ==> entries@[j].0@ != key@,
                    decreases n,
                {
                    if same_text(entries[n - 1].0.as_str(), key) {
                        let pair = (key.to_owned(), value);
                        proof {
                            lemma_entry_replaced(entries@, n - 1, pair);
                        }
                        entries.set(n - 1, pair);
                        return Json::Object(entries);
                    }
                    n = n - 1;
                }
                entries.push((key.to_owned(), value));
                assert(entries@.drop_last() =~= before);
                Json::Object(entries)
            },
            other => other,
        }
    }
}

/// What is set under a key of an object is what is found there, and what stands under the other
/// keys stays; the object without entries holds nothing.
pub proof fn law_what_is_set_is_found(
    value: JsonView,
    key: Seq<char>,
    set: JsonView,
    other: Seq<char>,
)
    requires
        value is Object,
    ensures
        value.with(key, set) is Object,
        value.with(key, set).field(key) == Some(set),
        other != key ==> value.with(key, set).field(other) == value.field(other),
        empty_object() is Object,
        empty_object().field(key) is None,
{
}

/// An object is what is found under its keys.
pub proof fn law_an_object_is_its_fields(map: Map<Seq<char>, JsonView>, key: Seq<char>)
    ensures
        JsonView::Object(map).field(key) is Some <==> map.contains_key(key),
        map.contains_key(key) ==> JsonView::Object(map).field(key) == Some(map[key]),
{
}

/// Nothing is found in a value that is no object, and nothing can be set in it.
pub proof fn law_only_objects_have_fields(value: JsonView, key: Seq<char>, set: JsonView)
    requires
        !(value is Object),
    ensures
        value.field(key) is None,
        value.with(key, set) == value,
{
}

/// A value is read as what it is, and as nothing else: a text, a list, a truth value or an integer
/// of 64 bits with a sign.
pub proof fn law_a_value_is_read_as_what_it_is(value: JsonView)
    ensures
        forall|text: Seq<char>| value.text() == Some(text) <==> value == JsonView::String(text),
        forall|items: Seq<JsonView>|
            value.items() == Some(items) <==> value == JsonView::Array(items),
        forall|truth: bool| value.truth() == Some(truth) <==> value == JsonView::Bool(truth),
        forall|n: i64|
            value.integer() == Some(n) <==> value == JsonView::Number(NumberView::NegInt(n)) || (n
                >= 0 && value == JsonView::Number(NumberView::PosInt(n as u64))),
{
}

/// Of the entries of an object the last under a key counts.
pub proof fn law_the_last_entry_counts(entries: Seq<(String, Json)>, at: int)
    requires
        0 <= at < entries.len(),
        forall|j: int| at < j < entries.len() ==> (#[trigger] entries[j]).0@ != entries[at].0@,
    ensures
        entry(entries, entries[at].0@) == Some(entries[at].1),
        JsonView::Object(entries_view(entries)).field(entries[at].0@) == Some(entries[at].1@),
    decreases entries.len(),
{
    if at < entries.len() - 1 {
        let rest = entries.drop_last();
        assert(entries[entries.len() - 1].0@ != entries[at].0@);
        assert forall|j: int| at < j < rest.len() implies (#[trigger] rest[j]).0@
            != rest[at].0@ by {
            assert(entries[j].0@ != entries[at].0@);
        }
        law_the_last_entry_counts(rest, at);
    }
}

/// Nothing is found under a key that no entry of an object has.
pub proof fn law_without_an_entry_nothing_is_found(entries: Seq<(String, Json)>, key: Seq<char>)
    requires
        forall|j: int| 0 <= j < entries.len() ==> (#[trigger] entries[j]).0@ != key,
    ensures
        entry(entries, key) is None,
        JsonView::Object(entries_view(entries)).field(key) is None,
    decreases entries.len(),
{
    if entries.len() > 0 {
        let rest = entries.drop_last();
        assert(entries[entries.len() - 1].0@ != key);
        assert forall|j: int| 0 <= j < rest.len() implies (#[trigger] rest[j]).0@ != key by {
            assert(entries[j].0@ != key);
        }
        law_without_an_entry_nothing_is_found(rest, key);
    }
}

/// A value is seen as it is, with everything in it.
pub proof fn law_a_value_is_seen_as_it_is(value: Json)
    ensures
        match value {
            Json::Null => value@ == JsonView::Null,
            Json::Bool(truth) => value@ == JsonView::Bool(truth),
            Json::Number(number) => value@ == JsonView::Number(number_view(number)),
            Json::String(text) => value@ == JsonView::String(text@),
            Json::Array(items) => value@ matches JsonView::Array(seen) && seen.len() == items.len()
                && forall|i: int| 0 <= i < seen.len() ==> #[trigger] seen[i] == items[i]@,
            Json::Object(entries) => value@ == JsonView::Object(entries_view(entries@)),
        },
{
}

} // verus!
