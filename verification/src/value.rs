//! The way between JSON text, `serde_json` values and the library's own JSON values.
use crate::json::{
    empty_object, entries_view, items_view, number_clone, number_view, Json, JsonView,
};
use crate::order::{
    all_ordered, ascending, keys_of, lemma_text_before_irreflexive, ordered, text_before,
};
use vstd::prelude::*;

verus! {

/// A JSON value of `serde_json`.
#[verifier::external_type_specification]
#[verifier::external_body]
pub struct ExValue(serde_json::Value);

/// An object of `serde_json`.
#[verifier::external_type_specification]
#[verifier::external_body]
#[verifier::reject_recursive_types(K)]
#[verifier::reject_recursive_types(V)]
pub struct ExObject<K, V>(serde_json::Map<K, V>);

/// What a `serde_json::Value` holds.
pub uninterp spec fn value_view(value: serde_json::Value) -> JsonView;

/// What a `serde_json::Map` holds.
pub uninterp spec fn object_view(
    object: serde_json::Map<String, serde_json::Value>,
) -> Map<Seq<char>, JsonView>;

/// What `serde_json::from_str` makes of a text: a value, or the text of its error.
pub uninterp spec fn parsed(text: Seq<char>) -> Result<JsonView, Seq<char>>;

/// The text that `serde_json` writes for a value.
pub uninterp spec fn json_text(value: JsonView) -> Seq<char>;

/// One layer of a `serde_json::Value`.
pub enum ValueParts {
    Null,
    Bool(bool),
    Number(serde_json::Number),
    String(String),
    Array(Vec<serde_json::Value>),
    Object(serde_json::Map<String, serde_json::Value>),
}

/// What the values of an array of `serde_json` are.
pub open spec fn values_view(values: Seq<serde_json::Value>) -> Seq<JsonView> {
    Seq::new(values.len(), |i: int| value_view(values[i]))
}

/// What the entries of an object of `serde_json` are.
pub open spec fn pairs_view(pairs: Seq<(String, serde_json::Value)>) -> Map<Seq<char>, JsonView>
    decreases pairs.len(),
{
    if pairs.len() == 0 {
        Map::empty()
    } else {
        pairs_view(pairs.drop_last()).insert(pairs.last().0@, value_view(pairs.last().1))
    }
}

impl ValueParts {
    /// What the value with this layer is.
    pub open spec fn json(self) -> JsonView {
        match self {
            ValueParts::Null => JsonView::Null,
            ValueParts::Bool(b) => JsonView::Bool(b),
            ValueParts::Number(n) => JsonView::Number(number_view(n)),
            ValueParts::String(s) => JsonView::String(s@),
            ValueParts::Array(values) => JsonView::Array(values_view(values@)),
            ValueParts::Object(object) => JsonView::Object(object_view(object)),
        }
    }
}

/// `serde_json::from_str` with a `serde_json::Value` as its result: what it makes of a text is a
/// function of the text, and a text that starts with a brace is read as an object, if at all.
#[verifier::external_body]
fn from_str(text: &str) -> (r: Result<serde_json::Value, String>)
    ensures
        match r {
            Ok(value) => parsed(text@) == Ok::<JsonView, Seq<char>>(value_view(value)),
            Err(message) => parsed(text@) == Err::<JsonView, Seq<char>>(message@),
        },
        text@.len() > 0 && text@[0] == '{' ==> (r matches Ok(value) ==> value_view(
            value,
        ) is Object),
{
    serde_json::from_str(text).map_err(|err: serde_json::Error| err.to_string())
}

/// `serde_json::Value::to_string`: the text written for a value is a function of the value.
#[verifier::external_body]
fn to_text(value: &serde_json::Value) -> (r: String)
    ensures
        r@ == json_text(value_view(*value)),
{
    value.to_string()
}

/// Takes the outermost layer of a `serde_json::Value` off: one variant of `ValueParts` stands for
/// each variant of `serde_json::Value`.
#[verifier::external_body]
fn take_apart(value: serde_json::Value) -> (r: ValueParts)
    ensures
        value_view(value) == r.json(),
{
    match value {
        serde_json::Value::Null => ValueParts::Null,
        serde_json::Value::Bool(b) => ValueParts::Bool(b),
        serde_json::Value::Number(n) => ValueParts::Number(n),
        serde_json::Value::String(s) => ValueParts::String(s),
        serde_json::Value::Array(values) => ValueParts::Array(values),
        serde_json::Value::Object(object) => ValueParts::Object(object),
    }
}

/// Makes the `serde_json::Value` with the given outermost layer: one variant of
/// `serde_json::Value` stands for each variant of `ValueParts`.
#[verifier::external_body]
fn put_together(parts: ValueParts) -> (r: serde_json::Value)
    ensures
        value_view(r) == parts.json(),
{
    match parts {
        ValueParts::Null => serde_json::Value::Null,
        ValueParts::Bool(b) => serde_json::Value::Bool(b),
        ValueParts::Number(n) => serde_json::Value::Number(n),
        ValueParts::String(s) => serde_json::Value::String(s),
        ValueParts::Array(values) => serde_json::Value::Array(values),
        ValueParts::Object(object) => serde_json::Value::Object(object),
    }
}

/// `serde_json::Map::into_iter`: hands every entry out, in the order of the keys, as the
/// `BTreeMap` that an object is by default does.
#[verifier::external_body]
fn into_pairs(object: serde_json::Map<String, serde_json::Value>) -> (r: Vec<
    (String, serde_json::Value),
>)
    ensures
        pairs_view(r@) == object_view(object),
        ascending(keys_of(r@)),
{
    object.into_iter().collect()
}

/// `serde_json::Map::new`: the object without entries.
#[verifier::external_body]
fn new_object() -> (r: serde_json::Map<String, serde_json::Value>)
    ensures
        JsonView::Object(object_view(r)) == empty_object(),
{
    serde_json::Map::new()
}

/// `serde_json::Map::insert`: sets the value under a key, whether or not the key was there.
#[verifier::external_body]
fn insert(
    object: &mut serde_json::Map<String, serde_json::Value>,
    key: String,
    value: serde_json::Value,
)
    ensures
        object_view(*final(object)) == object_view(*old(object)).insert(key@, value_view(value)),
{
    object.insert(key, value);
}

proof fn lemma_pairs_finite(pairs: Seq<(String, serde_json::Value)>)
    ensures
        pairs_view(pairs).dom().finite(),
    decreases pairs.len(),
{
    if pairs.len() > 0 {
        lemma_pairs_finite(pairs.drop_last());
    }
}

/// The library's own value for a `serde_json::Value`.
pub fn from_value(value: serde_json::Value) -> (r: Json)
    ensures
        r@ == value_view(value),
        ordered(r),
    decreases value_view(value),
{
    let ghost whole = value_view(value);
    match take_apart(value) {
        ValueParts::Null => Json::Null,
        ValueParts::Bool(b) => Json::Bool(b),
        ValueParts::Number(n) => Json::Number(n),
        ValueParts::String(s) => Json::String(s),
        ValueParts::Array(values) => {
            let ghost all = values@;
            let mut items: Vec<Json> = Vec::new();
            for v in it: values
                invariant
                    it.seq() == all,
                    items.len() == it.index(),
                    forall|j: int| 0 <= j < items.len() ==> (#[trigger] items@[j])@ == value_view(
                        all[j],
                    ),
                    all_ordered(items@),
                    value_view(value) == JsonView::Array(values_view(all)),
            {
                proof {
                    let k = it.index() as int;
                    assert(decreases_to!(value_view(value) => value_view(value)->Array_0));
                    assert(decreases_to!(values_view(all) => values_view(all)[k]));
                }
                items.push(from_value(v));
            }
            assert(items_view(items@) =~= values_view(all));
            Json::Array(items)
        },
        ValueParts::Object(object) => {
            let pairs = into_pairs(object);
            let ghost all = pairs@;
            let mut entries: Vec<(String, Json)> = Vec::new();
            for pair in it: pairs
                invariant
                    it.seq() == all,
                    entries.len() == it.index(),
                    entries_view(entries@) == pairs_view(all.take(it.index() as int)),
                    value_view(value) == JsonView::Object(pairs_view(all)),
                    ascending(keys_of(all)),
                    keys_of(entries@) == keys_of(all).take(it.index() as int),
                    forall|j: int| 0 <= j < entries.len() ==> ordered(#[trigger] entries@[j].1),
            {
                let ghost k = it.index() as int;
                let ghost before = entries@;
                let (key, v) = pair;
                proof {
                    lemma_pairs_finite(all);
                    lemma_pair_view(all, k);
                    assert(decreases_to!(value_view(value) => value_view(value)->Object_0));
                    assert(decreases_to!(pairs_view(all) => pairs_view(all)[key@]));
                }
                entries.push((key, from_value(v)));
                assert(entries@.drop_last() =~= before);
                assert(keys_of(entries@) =~= keys_of(all).take(k + 1));
                assert(all.take(k + 1).drop_last() =~= all.take(k));
            }
            assert(all.take(all.len() as int) =~= all);
            assert(keys_of(all).take(all.len() as int) =~= keys_of(all));
            Json::Object(entries)
        },
    }
}

/// Under the key of a pair stands its value, where the keys ascend.
proof fn lemma_pair_view(pairs: Seq<(String, serde_json::Value)>, k: int)
    requires
        ascending(keys_of(pairs)),
        0 <= k < pairs.len(),
    ensures
        pairs_view(pairs).contains_key(pairs[k].0@),
        pairs_view(pairs)[pairs[k].0@] == value_view(pairs[k].1),
    decreases pairs.len(),
{
    if k < pairs.len() - 1 {
        let rest = pairs.drop_last();
        let keys = keys_of(pairs);
        assert(ascending(keys_of(rest))) by {
            assert forall|i: int, j: int| 0 <= i < j < rest.len() implies text_before(
                #[trigger] keys_of(rest)[i],
                #[trigger] keys_of(rest)[j],
            ) by {
                assert(text_before(keys[i], keys[j]));
            }
        }
        lemma_pair_view(rest, k);
        assert(text_before(keys[k], keys[pairs.len() - 1]));
        lemma_text_before_irreflexive(keys[k]);
    }
}

/// The `serde_json::Value` for a value of the library.
pub fn to_value(json: &Json) -> (r: serde_json::Value)
    ensures
        value_view(r) == json@,
    decreases json,
{
    let parts = match json {
        Json::Null => ValueParts::Null,
        Json::Bool(b) => ValueParts::Bool(*b),
        Json::Number(n) => ValueParts::Number(number_clone(n)),
        Json::String(s) => ValueParts::String(s.clone()),
        Json::Array(items) => {
            let mut values: Vec<serde_json::Value> = Vec::new();
            let mut i: usize = 0;
            while i < items.len()
                invariant
                    *json == Json::Array(*items),
                    i <= items.len(),
                    values.len() == i,
                    forall|j: int| 0 <= j < i ==> value_view(#[trigger] values@[j]) == items@[j]@,
                decreases items.len() - i,
            {
                assert(decreases_to!(*json => json->Array_0));
                assert(decreases_to!(*items => items@));
                assert(decreases_to!(items@ => items@[i as int]));
                values.push(to_value(&items[i]));
                i = i + 1;
            }
            assert(values_view(values@) =~= items_view(items@));
            ValueParts::Array(values)
        },
        Json::Object(entries) => {
            let mut object = new_object();
            let mut i: usize = 0;
            while i < entries.len()
                invariant
                    *json == Json::Object(*entries),
                    i <= entries.len(),
                    object_view(object) == entries_view(entries@.take(i as int)),
                decreases entries.len() - i,
            {
                assert(decreases_to!(*json => json->Object_0));
                assert(decreases_to!(*entries => entries@));
                assert(decreases_to!(entries@ => entries@[i as int]));
                assert(decreases_to!(entries@[i as int] => entries@[i as int].1));
                insert(&mut object, entries[i].0.clone(), to_value(&entries[i].1));
                assert(entries@.take(i + 1).drop_last() =~= entries@.take(i as int));
                i = i + 1;
            }
            assert(entries@.take(i as int) =~= entries@);
            ValueParts::Object(object)
        },
    };
    put_together(parts)
}

/// The value that a JSON text holds, or the text of the error that it holds none.
pub fn parse(text: &str) -> (r: Result<Json, String>)
    ensures
        match r {
            Ok(json) => parsed(text@) == Ok::<JsonView, Seq<char>>(json@),
            Err(message) => parsed(text@) == Err::<JsonView, Seq<char>>(message@),
        },
        text@.len() > 0 && text@[0] == '{' ==> (r matches Ok(json) ==> json@ is Object),
        r matches Ok(json) ==> ordered(json),
{
    match from_str(text) {
        Ok(value) => Ok(from_value(value)),
        Err(message) => Err(message),
    }
}

/// The JSON text of a value.
pub fn print(json: &Json) -> (r: String)
    ensures
        r@ == json_text(json@),
{
    to_text(&to_value(json))
}

} // verus!
