//! Queries: what a user asks for, and the request body that asks the server for it.
use crate::json::{natural, or_null, Json, JsonView, NumberView};
use crate::options::{text_of, RequestOptions};
use crate::text::{
    is_white_space, law_margins_are_taken_off, starts_with, trim, trimmed,
};
use crate::value::{parse, parsed};
use vstd::prelude::*;

verus! {

/// A query that is ready to be sent: where to, what, and how many rows are wanted back.
#[derive(Debug)]
pub struct MilvusQuery {
    pub endpoint: &'static str,
    pub body: Json,
    pub cap: usize,
}

/// What a query is.
pub struct QueryView {
    pub endpoint: Seq<char>,
    pub body: JsonView,
    pub cap: usize,
}

impl View for MilvusQuery {
    type V = QueryView;

    open spec fn view(&self) -> QueryView {
        QueryView { endpoint: self.endpoint@, body: self.body@, cap: self.cap }
    }
}

/// A query, or what is said where there is none.
pub open spec fn query_of(outcome: Result<MilvusQuery, String>) -> Result<QueryView, Seq<char>> {
    match outcome {
        Ok(query) => Ok(query@),
        Err(why) => Err(why@),
    }
}

/// Where searches by vector are sent.
pub open spec fn search_endpoint() -> Seq<char> {
    "/v2/vectordb/entities/search"@
}

/// Where queries by filter are sent.
pub open spec fn query_endpoint() -> Seq<char> {
    "/v2/vectordb/entities/query"@
}

/// The object with an entry set, where it had none under that key.
pub open spec fn with_default(value: JsonView, key: Seq<char>, default: JsonView) -> JsonView {
    if value.field(key) is None {
        value.with(key, default)
    } else {
        value
    }
}

/// What the user wrote, as an object: JSON in braces, or else the name of a collection.
pub open spec fn written(input: Seq<char>) -> Result<JsonView, Seq<char>> {
    let text = trimmed(input);
    if text.len() > 0 && text[0] == '{' {
        match parsed(text) {
            Ok(value) => Ok(value),
            Err(why) => Err("invalid Milvus query JSON: "@ + why),
        }
    } else {
        Ok(
            JsonView::Object(
                Map::<Seq<char>, JsonView>::empty().insert(
                    "collectionName"@,
                    JsonView::String(text),
                ),
            ),
        )
    }
}

/// The object with a collection named, where the request names one and the object does not.
pub open spec fn with_collection(value: JsonView, fallback: Option<Seq<char>>) -> JsonView {
    match fallback {
        Some(name) => with_default(value, "collectionName"@, JsonView::String(name)),
        None => value,
    }
}

/// The object names a collection.
pub open spec fn names_collection(value: JsonView) -> bool {
    value.field("collectionName"@) matches Some(JsonView::String(name)) && name.len() > 0
}

/// The object asks for a search by vector.
pub open spec fn is_search(value: JsonView) -> bool {
    value.field("data"@) is Some || value.field("vector"@) is Some
}

/// The request body for an object that names a collection: what it leaves open is filled in.
pub open spec fn completed(value: JsonView, cap: usize) -> JsonView {
    if is_search(value) {
        let vectors = JsonView::Array(seq![or_null(value.field("vector"@))]);
        with_default(with_default(value, "data"@, vectors), "limit"@, natural(cap as u64))
    } else {
        let filtered = with_default(value, "filter"@, JsonView::String(""@));
        let limited = with_default(filtered, "limit"@, natural(cap as u64));
        with_default(limited, "outputFields"@, JsonView::Array(seq![JsonView::String("*"@)]))
    }
}

/// The query that an object asks for, with the collection that the request names as a fallback.
pub open spec fn prepared(value: JsonView, fallback: Option<Seq<char>>, cap: usize) -> Result<
    QueryView,
    Seq<char>,
> {
    let named = with_collection(value, fallback);
    if names_collection(named) {
        Ok(
            QueryView {
                endpoint: if is_search(named) {
                    search_endpoint()
                } else {
                    query_endpoint()
                },
                body: completed(named, cap),
                cap,
            },
        )
    } else {
        Err("Milvus query needs collectionName."@)
    }
}

/// The query that a user asks for.
pub open spec fn requested(input: Seq<char>, fallback: Option<Seq<char>>, cap: usize) -> Result<
    QueryView,
    Seq<char>,
> {
    match written(input) {
        Ok(value) => prepared(value, fallback, cap),
        Err(why) => Err(why),
    }
}

/// The object with an entry set, where it had none under that key.
fn set_default(value: Json, key: &str, default: Json) -> (r: Json)
    ensures
        r@ == with_default(value@, key@, default@),
{
    if value.get(key).is_none() {
        value.with(key, default)
    } else {
        value
    }
}

impl MilvusQuery {
    /// The query that a user asks for: JSON in braces, or else the name of a collection.
    pub fn from_input(input: &str, options: &RequestOptions, cap: usize) -> (r: Result<
        MilvusQuery,
        String,
    >)
        ensures
            query_of(r) == requested(input@, text_of(options.collection), cap),
    {
        let input = trim(input);
        let value = if starts_with(input, '{') {
            match parse(input) {
                Ok(value) => value,
                Err(why) => {
                    return Err("invalid Milvus query JSON: ".to_owned().concat(why.as_str()));
                },
            }
        } else {
            Json::object().with("collectionName", Json::string(input))
        };
        MilvusQuery::from_value(value, options, cap)
    }

    /// The query that an object asks for.
    pub fn from_value(value: Json, options: &RequestOptions, cap: usize) -> (r: Result<
        MilvusQuery,
        String,
    >)
        requires
            value@ is Object,
        ensures
            query_of(r) == prepared(value@, text_of(options.collection), cap),
    {
        let named = match &options.collection {
            Some(name) => set_default(value, "collectionName", Json::string(name.as_str())),
            None => value,
        };
        let has_name = match named.get("collectionName") {
            Some(name) => match name.as_str() {
                Some(name) => !name.is_empty(),
                None => false,
            },
            None => false,
        };
        if !has_name {
            return Err("Milvus query needs collectionName.".to_owned());
        }
        if named.get("data").is_some() || named.get("vector").is_some() {
            let vector = match named.get("vector") {
                Some(vector) => vector.copy(),
                None => Json::Null,
            };
            let with_data = set_default(named, "data", Json::singleton(vector));
            let body = set_default(with_data, "limit", Json::natural(cap as u64));
            Ok(MilvusQuery { endpoint: "/v2/vectordb/entities/search", body, cap })
        } else {
            let filtered = set_default(named, "filter", Json::string(""));
            let limited = set_default(filtered, "limit", Json::natural(cap as u64));
            let body = set_default(limited, "outputFields", Json::singleton(Json::string("*")));
            Ok(MilvusQuery { endpoint: "/v2/vectordb/entities/query", body, cap })
        }
    }
}

/// The names under which a request body is filled in are all different.
proof fn lemma_names_differ()
    ensures
        "collectionName"@ != "data"@,
        "collectionName"@ != "vector"@,
        "collectionName"@ != "filter"@,
        "collectionName"@ != "limit"@,
        "collectionName"@ != "outputFields"@,
        "data"@ != "vector"@,
        "data"@ != "filter"@,
        "data"@ != "limit"@,
        "data"@ != "outputFields"@,
        "vector"@ != "filter"@,
        "vector"@ != "limit"@,
        "vector"@ != "outputFields"@,
        "filter"@ != "limit"@,
        "filter"@ != "outputFields"@,
        "limit"@ != "outputFields"@,
{
    reveal_strlit("collectionName");
    reveal_strlit("data");
    reveal_strlit("vector");
    reveal_strlit("filter");
    reveal_strlit("limit");
    reveal_strlit("outputFields");
    assert("collectionName"@.len() == 14 && "outputFields"@.len() == 12);
    assert("data"@.len() == 4 && "limit"@.len() == 5);
    assert("filter"@.len() == 6 && "vector"@.len() == 6);
    assert("filter"@[0] == 'f' && "vector"@[0] == 'v');
}

/// A query that is ready says everything that the server needs: a collection and a limit; where
/// it is a search, the vectors, and where it is not, a filter and the fields wanted back.
pub proof fn law_query_is_complete(value: JsonView, fallback: Option<Seq<char>>, cap: usize)
    requires
        value is Object,
    ensures
        prepared(value, fallback, cap) matches Ok(query) ==> {
            &&& names_collection(query.body)
            &&& query.body.field("limit"@) is Some
            &&& query.endpoint == search_endpoint() || query.endpoint == query_endpoint()
            &&& query.endpoint == search_endpoint() <==> is_search(query.body)
            &&& query.endpoint == search_endpoint() ==> query.body.field("data"@) is Some
            &&& query.endpoint == query_endpoint() ==> query.body.field("filter"@) is Some
            &&& query.endpoint == query_endpoint() ==> query.body.field("outputFields"@) is Some
            &&& query.cap == cap
        },
{
    lemma_names_differ();
    lemma_endpoints_differ();
}

proof fn lemma_endpoints_differ()
    ensures
        search_endpoint() != query_endpoint(),
{
    reveal_strlit("/v2/vectordb/entities/search");
    reveal_strlit("/v2/vectordb/entities/query");
    assert(search_endpoint().len() != query_endpoint().len());
}

/// What the user wrote is sent as it was written, whatever it is: only what was left open is
/// filled in, and nothing is filled in but the collection, the vectors, the filter, the limit and
/// the fields wanted back.
pub proof fn law_query_keeps_what_was_written(
    value: JsonView,
    fallback: Option<Seq<char>>,
    cap: usize,
    key: Seq<char>,
)
    requires
        value is Object,
    ensures
        prepared(value, fallback, cap) matches Ok(query) ==> {
            &&& value.field(key) is Some ==> query.body.field(key) == value.field(key)
            &&& query.body.field(key) == value.field(key) || key == "collectionName"@ || key
                == "data"@ || key == "filter"@ || key == "limit"@ || key == "outputFields"@
        },
{
    lemma_names_differ();
}

/// A query that is ready stays as it is when it is made ready again.
pub proof fn law_ready_query_is_ready(
    value: JsonView,
    fallback: Option<Seq<char>>,
    cap: usize,
    other_fallback: Option<Seq<char>>,
    other_cap: usize,
)
    requires
        value is Object,
    ensures
        prepared(value, fallback, cap) matches Ok(query) ==> (prepared(
            query.body,
            other_fallback,
            other_cap,
        ) matches Ok(again) && again.body == query.body && again.endpoint == query.endpoint),
{
    lemma_names_differ();
}

/// A query is a search by vector exactly where what the user wrote holds `data` or `vector`, and a
/// query by filter exactly where it holds neither.
pub proof fn law_vectors_make_a_search(value: JsonView, fallback: Option<Seq<char>>, cap: usize)
    requires
        value is Object,
    ensures
        prepared(value, fallback, cap) matches Ok(query) ==> {
            &&& query.endpoint == "/v2/vectordb/entities/search"@ <==> value.field("data"@) is Some
                || value.field("vector"@) is Some
            &&& query.endpoint == "/v2/vectordb/entities/query"@ <==> value.field("data"@) is None
                && value.field("vector"@) is None
        },
{
    lemma_names_differ();
    reveal_strlit("/v2/vectordb/entities/search");
    reveal_strlit("/v2/vectordb/entities/query");
    assert("/v2/vectordb/entities/search"@.len() == 28);
    assert("/v2/vectordb/entities/query"@.len() == 27);
}

/// A query is made ready exactly where a collection is named, by what the user wrote or, where
/// that says nothing of it, by the request; that collection is the one that is asked.
pub proof fn law_query_needs_a_collection(value: JsonView, fallback: Option<Seq<char>>, cap: usize)
    requires
        value is Object,
    ensures
        prepared(value, fallback, cap) is Ok <==> (match value.field("collectionName"@) {
            Some(JsonView::String(name)) => name.len() > 0,
            Some(_) => false,
            None => fallback matches Some(name) && name.len() > 0,
        }),
        match prepared(value, fallback, cap) {
            Ok(query) => query.body.field("collectionName"@) == (match value.field(
                "collectionName"@,
            ) {
                Some(name) => Some(name),
                None => Some(JsonView::String(fallback->Some_0)),
            }),
            Err(why) => why == "Milvus query needs collectionName."@,
        },
{
    lemma_names_differ();
}

/// What is left open is filled in: the number of rows wanted back; for a search the one vector, as
/// a list; otherwise a filter that lets everything pass, and all fields. Nothing else is added.
pub proof fn law_what_is_left_open_is_filled_in(
    value: JsonView,
    fallback: Option<Seq<char>>,
    cap: usize,
    key: Seq<char>,
)
    requires
        value is Object,
        value.field(key) is None,
        key != "collectionName"@,
    ensures
        prepared(value, fallback, cap) matches Ok(query) ==> {
            let search = value.field("data"@) is Some || value.field("vector"@) is Some;
            &&& query.cap == cap
            &&& query.body is Object
            &&& key == "limit"@ ==> query.body.field(key) == Some(
                JsonView::Number(NumberView::PosInt(cap as u64)),
            )
            &&& key == "data"@ && search ==> (query.body.field(key) matches Some(
                JsonView::Array(vectors),
            ) && vectors.len() == 1 && value.field("vector"@) == Some(vectors[0]))
            &&& key == "filter"@ && !search ==> (query.body.field(key) matches Some(
                JsonView::String(filter),
            ) && filter.len() == 0)
            &&& key == "outputFields"@ && !search ==> (query.body.field(key) matches Some(
                JsonView::Array(names),
            ) && names.len() == 1 && names[0] == JsonView::String("*"@))
            &&& (key == "filter"@ || key == "outputFields"@) && search ==> query.body.field(
                key,
            ) is None
            &&& key == "data"@ && !search ==> query.body.field(key) is None
            &&& key != "limit"@ && key != "data"@ && key != "filter"@ && key != "outputFields"@
                ==> query.body.field(key) is None
        },
{
    lemma_names_differ();
    reveal_strlit("");
}

/// White space around what the user wrote means nothing.
pub proof fn law_margins_of_a_query_mean_nothing(
    before: Seq<char>,
    input: Seq<char>,
    after: Seq<char>,
    fallback: Option<Seq<char>>,
    cap: usize,
)
    requires
        forall|i: int| 0 <= i < before.len() ==> is_white_space(#[trigger] before[i]),
        input.len() == 0 || !is_white_space(input[0]) && !is_white_space(input.last()),
        forall|i: int| 0 <= i < after.len() ==> is_white_space(#[trigger] after[i]),
    ensures
        requested(before + input + after, fallback, cap) == requested(input, fallback, cap),
{
    law_margins_are_taken_off(before, input, after);
    law_margins_are_taken_off(Seq::empty(), input, Seq::empty());
    assert(Seq::<char>::empty() + input + Seq::<char>::empty() =~= input);
}

/// What does not start with a brace is the name of a collection: all of its rows are asked for, up
/// to the number wanted back, whatever collection the request names. No name is no query.
pub proof fn law_a_bare_name_asks_for_the_collection(
    name: Seq<char>,
    fallback: Option<Seq<char>>,
    cap: usize,
    key: Seq<char>,
)
    requires
        name.len() == 0 || !is_white_space(name[0]) && !is_white_space(name.last()),
        name.len() == 0 || name[0] != '{',
    ensures
        name.len() == 0 ==> requested(name, fallback, cap) == Err::<QueryView, Seq<char>>(
            "Milvus query needs collectionName."@,
        ),
        name.len() > 0 ==> (requested(name, fallback, cap) matches Ok(query) && {
            &&& query.endpoint == "/v2/vectordb/entities/query"@
            &&& query.cap == cap
            &&& query.body.field("collectionName"@) == Some(JsonView::String(name))
            &&& query.body.field("limit"@) == Some(
                JsonView::Number(NumberView::PosInt(cap as u64)),
            )
            &&& query.body.field("filter"@) matches Some(JsonView::String(filter)) && filter.len()
                == 0
            &&& query.body.field("outputFields"@) == Some(
                JsonView::Array(seq![JsonView::String("*"@)]),
            )
            &&& key != "collectionName"@ && key != "limit"@ && key != "filter"@ && key
                != "outputFields"@ ==> query.body.field(key) is None
        }),
{
    lemma_names_differ();
    reveal_strlit("");
    law_margins_are_taken_off(Seq::empty(), name, Seq::empty());
    assert(Seq::<char>::empty() + name + Seq::<char>::empty() =~= name);
}

/// What starts with a brace is JSON: what it holds is made ready, and where it holds nothing, that
/// is said, with the reason.
pub proof fn law_a_brace_starts_json(
    input: Seq<char>,
    fallback: Option<Seq<char>>,
    cap: usize,
)
    requires
        input.len() == 0 || !is_white_space(input[0]) && !is_white_space(input.last()),
        input.len() > 0,
        input[0] == '{',
    ensures
        match parsed(input) {
            Ok(value) => requested(input, fallback, cap) == prepared(value, fallback, cap),
            Err(why) => requested(input, fallback, cap) == Err::<QueryView, Seq<char>>(
                "invalid Milvus query JSON: "@ + why,
            ),
        },
{
    law_margins_are_taken_off(Seq::empty(), input, Seq::empty());
    assert(Seq::<char>::empty() + input + Seq::<char>::empty() =~= input);
}

/// A query is seen as it is: where it is sent, what is sent, and how many rows are wanted back.
pub proof fn law_a_query_is_seen_as_it_is(query: MilvusQuery, why: String)
    ensures
        query@.endpoint == query.endpoint@,
        query@.body == query.body@,
        query@.cap == query.cap,
        query_of(Ok(query)) == Ok::<QueryView, Seq<char>>(query@),
        query_of(Err(why)) == Err::<QueryView, Seq<char>>(why@),
{
}

} // verus!
