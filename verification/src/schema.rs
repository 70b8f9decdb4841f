//! The collections of a server and their fields, as its replies describe them.
use crate::exchange::{read_reply, Exchange};
use crate::json::{
    data_of, empty_object, items_view, natural, Json, JsonView, NumberView,
};
use crate::options::texts_of;
use crate::value::{json_text, print};
use vstd::prelude::*;

verus! {

/// Where the collections are asked for.
pub open spec fn list_path() -> Seq<char> {
    "/v2/vectordb/collections/list"@
}

/// Where the description of a collection is asked for.
pub open spec fn describe_path() -> Seq<char> {
    "/v2/vectordb/collections/describe"@
}

/// The name of a collection in a list: a string, or the name in an object.
pub open spec fn listed_name(value: JsonView) -> Option<Seq<char>> {
    match value.text() {
        Some(name) => Some(name),
        None => match value.field("name"@) {
            Some(name) => name.text(),
            None => None,
        },
    }
}

/// The names in a list of strings and objects.
pub open spec fn listed_names(items: Seq<JsonView>) -> Seq<Seq<char>>
    decreases items.len(),
{
    if items.len() == 0 {
        Seq::empty()
    } else {
        let before = listed_names(items.drop_last());
        match listed_name(items.last()) {
            Some(name) => before.push(name),
            None => before,
        }
    }
}

/// The strings in a list.
pub open spec fn strings_in(items: Seq<JsonView>) -> Seq<Seq<char>>
    decreases items.len(),
{
    if items.len() == 0 {
        Seq::empty()
    } else {
        let before = strings_in(items.drop_last());
        match items.last().text() {
            Some(name) => before.push(name),
            None => before,
        }
    }
}

/// The names of the collections in a reply: the data is the list, or it holds it.
pub open spec fn names_in(reply: JsonView) -> Seq<Seq<char>> {
    let data = data_of(reply);
    match data.items() {
        Some(items) => listed_names(items),
        None => {
            let held = match data.field("collectionNames"@) {
                Some(list) => Some(list),
                None => data.field("collection_names"@),
            };
            match held {
                Some(JsonView::Array(items)) => strings_in(items),
                _ => Seq::empty(),
            }
        },
    }
}

/// The fields in the description of a collection.
pub open spec fn fields_in(data: JsonView) -> Seq<JsonView> {
    let in_schema = match data.field("schema"@) {
        Some(schema) => schema.field("fields"@),
        None => None,
    };
    let found = match in_schema {
        Some(fields) => Some(fields),
        None => data.field("fields"@),
    };
    match found {
        Some(JsonView::Array(items)) => items,
        _ => Seq::empty(),
    }
}

/// A text under a key, or what stands for it.
pub open spec fn text_or(value: JsonView, key: Seq<char>, default: Seq<char>) -> Seq<char> {
    match value.field(key) {
        Some(JsonView::String(text)) => text,
        _ => default,
    }
}

/// How the type of a field is shown.
pub open spec fn type_text(field: JsonView) -> Seq<char> {
    let given = match field.field("dataType"@) {
        Some(data_type) => Some(data_type),
        None => field.field("type"@),
    };
    match given {
        Some(data_type) => json_text(data_type),
        None => "unknown"@,
    }
}

/// A column of a collection: a field, and its place counted from one.
pub open spec fn column(field: JsonView, ordinal: u64) -> JsonView {
    let primary = match field.field("isPrimary"@) {
        Some(JsonView::Bool(primary)) => primary,
        _ => false,
    };
    empty_object()
        .with("name"@, JsonView::String(text_or(field, "name"@, "field"@)))
        .with("dataType"@, JsonView::String(type_text(field)))
        .with("nullable"@, JsonView::Bool(true))
        .with("ordinal"@, natural(ordinal))
        .with("primaryKey"@, JsonView::Bool(primary))
}

/// The columns of a collection.
pub open spec fn columns(fields: Seq<JsonView>) -> Seq<JsonView> {
    Seq::new(fields.len(), |i: int| column(fields[i], (i + 1) as u64))
}

/// What is said of a collection, from the name it was asked for by and the reply.
pub open spec fn described(name: Seq<char>, reply: JsonView) -> JsonView {
    let data = data_of(reply);
    let indexes = match data.field("indexes"@) {
        Some(indexes) => indexes,
        None => JsonView::Array(Seq::empty()),
    };
    empty_object()
        .with("schema"@, JsonView::String("default"@))
        .with("name"@, JsonView::String(text_or(data, "collectionName"@, name)))
        .with("kind"@, JsonView::String("collection"@))
        .with("columns"@, JsonView::Array(columns(fields_in(data))))
        .with("indexes"@, indexes)
        .with("primaryKey"@, JsonView::Array(Seq::empty()))
        .with("foreignKeys"@, JsonView::Array(Seq::empty()))
}

/// What is said of the server as a whole: one schema with all its collections.
pub open spec fn document(objects: Seq<JsonView>) -> JsonView {
    let schema = empty_object().with("name"@, JsonView::String("default"@)).with(
        "objects"@,
        JsonView::Array(objects),
    );
    empty_object().with("schemas"@, JsonView::Array(seq![schema]))
}

/// The body that asks for one collection.
pub open spec fn describe_body(name: Seq<char>) -> JsonView {
    empty_object().with("collectionName"@, JsonView::String(name))
}

/// A text under a key, or what stands for it.
fn get_text_or<'a>(value: &'a Json, key: &str, default: &'a str) -> (r: &'a str)
    ensures
        r@ == text_or(value@, key@, default@),
{
    match value.get(key) {
        Some(found) => match found.as_str() {
            Some(text) => text,
            None => default,
        },
        None => default,
    }
}

/// The names of the collections in a reply.
pub fn collection_names(reply: &Json) -> (r: Vec<String>)
    ensures
        texts_of(r@) == names_in(reply@),
{
    let mut names: Vec<String> = Vec::new();
    assert(texts_of(names@) =~= Seq::empty());
    let data = match reply.get("data") {
        Some(data) => data,
        None => return names,
    };
    if let Some(items) = data.as_array() {
        let ghost views = items_view(items@);
        let mut i: usize = 0;
        assert(views.take(0) =~= Seq::empty());
        while i < items.len()
            invariant
                i <= items.len(),
                views == items_view(items@),
                texts_of(names@) == listed_names(views.take(i as int)),
            decreases items.len() - i,
        {
            let name = match items[i].as_str() {
                Some(name) => Some(name),
                None => match items[i].get("name") {
                    Some(name) => name.as_str(),
                    None => None,
                },
            };
            assert(views.take(i + 1).drop_last() =~= views.take(i as int));
            assert(views.take(i + 1).last() == items@[i as int]@);
            if let Some(name) = name {
                let ghost before = texts_of(names@);
                names.push(name.to_owned());
                assert(texts_of(names@) =~= before.push(name@));
            }
            i = i + 1;
        }
        assert(views.take(i as int) =~= views);
        return names;
    }
    let held = match data.get("collectionNames") {
        Some(list) => Some(list),
        None => data.get("collection_names"),
    };
    if let Some(list) = held {
        if let Some(items) = list.as_array() {
            let ghost views = items_view(items@);
            let mut i: usize = 0;
            assert(views.take(0) =~= Seq::empty());
            while i < items.len()
                invariant
                    i <= items.len(),
                    views == items_view(items@),
                    texts_of(names@) == strings_in(views.take(i as int)),
                decreases items.len() - i,
            {
                assert(views.take(i + 1).drop_last() =~= views.take(i as int));
                assert(views.take(i + 1).last() == items@[i as int]@);
                if let Some(name) = items[i].as_str() {
                    let ghost before = texts_of(names@);
                    names.push(name.to_owned());
                    assert(texts_of(names@) =~= before.push(name@));
                }
                i = i + 1;
            }
            assert(views.take(i as int) =~= views);
        }
    }
    names
}

/// A column of a collection: a field, and its place counted from one.
fn describe_field(field: &Json, ordinal: u64) -> (r: Json)
    ensures
        r@ == column(field@, ordinal),
{
    let given = match field.get("dataType") {
        Some(data_type) => Some(data_type),
        None => field.get("type"),
    };
    let type_text = match given {
        Some(data_type) => print(data_type),
        None => "unknown".to_owned(),
    };
    let primary = match field.get("isPrimary") {
        Some(primary) => match primary.as_bool() {
            Some(primary) => primary,
            None => false,
        },
        None => false,
    };
    Json::object().with("name", Json::string(get_text_or(field, "name", "field"))).with(
        "dataType",
        Json::String(type_text),
    ).with("nullable", Json::Bool(true)).with("ordinal", Json::natural(ordinal)).with(
        "primaryKey",
        Json::Bool(primary),
    )
}

/// The columns of a collection.
fn describe_fields(fields: &Vec<Json>) -> (r: Json)
    ensures
        r@ == JsonView::Array(columns(items_view(fields@))),
{
    let mut out: Vec<Json> = Vec::new();
    let mut i: usize = 0;
    while i < fields.len()
        invariant
            i <= fields.len(),
            out.len() == i,
            forall|j: int|
                0 <= j < i ==> (#[trigger] out@[j])@ == column(fields@[j]@, (j + 1) as u64),
        decreases fields.len() - i,
    {
        out.push(describe_field(&fields[i], (i + 1) as u64));
        i = i + 1;
    }
    assert(items_view(out@) =~= columns(items_view(fields@)));
    Json::Array(out)
}

/// What is said of a collection, from the name it was asked for by and the reply.
pub fn describe_collection(name: &str, reply: &Json) -> (r: Json)
    ensures
        r@ == described(name@, reply@),
{
    let null = Json::Null;
    let data = match reply.get("data") {
        Some(data) => data,
        None => &null,
    };
    let in_schema = match data.get("schema") {
        Some(schema) => schema.get("fields"),
        None => None,
    };
    let found = match in_schema {
        Some(fields) => Some(fields),
        None => data.get("fields"),
    };
    let listed = match found {
        Some(fields) => fields.as_array(),
        None => None,
    };
    let columns = match listed {
        Some(fields) => describe_fields(fields),
        None => {
            assert(columns(Seq::empty()) =~= Seq::empty());
            Json::array()
        },
    };
    let indexes = match data.get("indexes") {
        Some(indexes) => indexes.copy(),
        None => Json::array(),
    };
    Json::object().with("schema", Json::string("default")).with(
        "name",
        Json::string(get_text_or(data, "collectionName", name)),
    ).with("kind", Json::string("collection")).with("columns", columns).with(
        "indexes",
        indexes,
    ).with("primaryKey", Json::array()).with("foreignKeys", Json::array())
}

/// How many collections the server has, or what is said where that is not known.
pub fn probe(exchange: Exchange) -> (r: Result<usize, String>)
    requires
        exchange.wf(),
    ensures
        match r {
            Ok(count) => exchange.reply() matches Ok(reply) && count == names_in(reply).len(),
            Err(why) => exchange.reply() matches Err(message) && why@ == message,
        },
{
    match read_reply(exchange) {
        Ok(reply) => {
            let names = collection_names(&reply);
            assert(texts_of(names@).len() == names@.len());
            Ok(names.len())
        },
        Err(why) => Err(why),
    }
}

/// The description of a server under way: the collections that it has, and what is said of those
/// that have been asked about, in the same order.
#[derive(Debug)]
pub struct MetadataLoad {
    names: Vec<String>,
    objects: Vec<Json>,
}

/// What the description of a server under way is.
#[verifier::ext_equal]
pub struct MetadataView {
    pub names: Seq<Seq<char>>,
    pub objects: Seq<JsonView>,
}

impl View for MetadataLoad {
    type V = MetadataView;

    closed spec fn view(&self) -> MetadataView {
        MetadataView { names: texts_of(self.names@), objects: items_view(self.objects@) }
    }
}

impl MetadataView {
    /// The description at its start, when nothing has been asked about.
    pub open spec fn begun(names: Seq<Seq<char>>) -> MetadataView {
        MetadataView { names, objects: Seq::empty() }
    }

    /// No more has been said than was asked for.
    pub open spec fn wf(self) -> bool {
        self.objects.len() <= self.names.len()
    }

    /// Every collection has been asked about.
    pub open spec fn is_done(self) -> bool {
        self.objects.len() == self.names.len()
    }

    /// The collection to ask about next.
    pub open spec fn next_name(self) -> Seq<char> {
        self.names[self.objects.len() as int]
    }

    /// The description with one more reply taken in.
    pub open spec fn accepted(self, reply: JsonView) -> MetadataView {
        MetadataView {
            names: self.names,
            objects: self.objects.push(described(self.next_name(), reply)),
        }
    }

    /// The description with all the replies taken in, one after the other.
    pub open spec fn all_accepted(self, replies: Seq<JsonView>) -> MetadataView
        decreases replies.len(),
    {
        if replies.len() == 0 {
            self
        } else {
            self.all_accepted(replies.drop_last()).accepted(replies.last())
        }
    }
}

impl MetadataLoad {
    /// The description at its start, from the list of the collections, or what is said where
    /// there is no list.
    pub fn begin(list: Exchange) -> (r: Result<MetadataLoad, String>)
        requires
            list.wf(),
        ensures
            match r {
                Ok(load) => list.reply() matches Ok(reply) && load@ == MetadataView::begun(
                    names_in(reply),
                ) && load@.wf(),
                Err(why) => list.reply() matches Err(message) && why@ == message,
            },
    {
        match read_reply(list) {
            Ok(reply) => {
                let objects: Vec<Json> = Vec::new();
                assert(items_view(objects@) =~= Seq::empty());
                Ok(MetadataLoad { names: collection_names(&reply), objects })
            },
            Err(why) => Err(why),
        }
    }

    /// The body that asks about the next collection, if there is one left to ask about.
    pub fn next_body(&self) -> (r: Option<Json>)
        requires
            self@.wf(),
        ensures
            match r {
                Some(body) => !self@.is_done() && body@ == describe_body(self@.next_name()),
                None => self@.is_done(),
            },
    {
        let next = self.objects.len();
        if next < self.names.len() {
            Some(
                Json::object().with(
                    "collectionName",
                    Json::string(self.names[next].as_str()),
                ),
            )
        } else {
            None
        }
    }

    /// Takes in what came of asking about the next collection, or says why that came to nothing.
    pub fn accept(self, exchange: Exchange) -> (r: Result<MetadataLoad, String>)
        requires
            self@.wf(),
            !self@.is_done(),
            exchange.wf(),
        ensures
            match r {
                Ok(load) => exchange.reply() matches Ok(reply) && load@ == self@.accepted(reply)
                    && load@.wf(),
                Err(why) => exchange.reply() matches Err(message) && why@ == message,
            },
    {
        let ghost before = self@;
        match read_reply(exchange) {
            Ok(reply) => {
                let MetadataLoad { names, objects } = self;
                let mut objects = objects;
                let object = describe_collection(names[objects.len()].as_str(), &reply);
                objects.push(object);
                assert(items_view(objects@) =~= before.objects.push(object@));
                Ok(MetadataLoad { names, objects })
            },
            Err(why) => Err(why),
        }
    }

    /// What is said of the server as a whole.
    pub fn finish(self) -> (r: Json)
        requires
            self@.is_done(),
        ensures
            r@ == document(self@.objects),
    {
        let schema = Json::object().with("name", Json::string("default")).with(
            "objects",
            Json::Array(self.objects),
        );
        Json::object().with("schemas", Json::singleton(schema))
    }
}

/// When as many replies have been taken in as there are collections, every collection is described
/// by the reply to the question about it, in the order of the list.
pub proof fn law_every_collection_is_described(names: Seq<Seq<char>>, replies: Seq<JsonView>)
    requires
        replies.len() <= names.len(),
    ensures
        MetadataView::begun(names).all_accepted(replies) == (MetadataView {
            names,
            objects: Seq::new(replies.len(), |i: int| described(names[i], replies[i])),
        }),
        replies.len() == names.len() <==> MetadataView::begun(names).all_accepted(
            replies,
        ).is_done(),
    decreases replies.len(),
{
    let objects = Seq::new(replies.len(), |i: int| described(names[i], replies[i]));
    let all = MetadataView::begun(names).all_accepted(replies);
    if replies.len() > 0 {
        law_every_collection_is_described(names, replies.drop_last());
    }
    assert(all.objects =~= objects);
}

/// A list of collection names that are strings is read as it stands, whichever of the three shapes
/// the reply has.
pub proof fn law_list_of_strings_is_read_as_it_stands(reply: JsonView, names: Seq<Seq<char>>)
    ensures
        ({
            let list = JsonView::Array(Seq::new(names.len(), |i: int| JsonView::String(names[i])));
            let data = data_of(reply);
            data == list || (!(data is Array) && data.field("collectionNames"@) == Some(list)) || (
            !(data is Array) && data.field("collectionNames"@) is None && data.field(
                "collection_names"@,
            ) == Some(list)) ==> names_in(reply) == names
        }),
{
    lemma_strings(names);
}

proof fn lemma_strings(names: Seq<Seq<char>>)
    ensures
        ({
            let items = Seq::new(names.len(), |i: int| JsonView::String(names[i]));
            listed_names(items) == names && strings_in(items) == names
        }),
    decreases names.len(),
{
    let items = Seq::new(names.len(), |i: int| JsonView::String(names[i]));
    if names.len() == 0 {
        assert(listed_names(items) =~= names);
        assert(strings_in(items) =~= names);
    } else {
        lemma_strings(names.drop_last());
        assert(items.drop_last() =~= Seq::new(
            names.drop_last().len(),
            |i: int| JsonView::String(names.drop_last()[i]),
        ));
        assert(listed_names(items) =~= names);
        assert(strings_in(items) =~= names);
    }
}

/// The names under which a column and a collection are described are all different.
proof fn lemma_names_differ()
    ensures
        "name"@ != "dataType"@,
        "name"@ != "nullable"@,
        "name"@ != "ordinal"@,
        "name"@ != "primaryKey"@,
        "dataType"@ != "nullable"@,
        "dataType"@ != "ordinal"@,
        "dataType"@ != "primaryKey"@,
        "nullable"@ != "ordinal"@,
        "nullable"@ != "primaryKey"@,
        "ordinal"@ != "primaryKey"@,
        "schema"@ != "name"@,
        "schema"@ != "kind"@,
        "schema"@ != "columns"@,
        "schema"@ != "indexes"@,
        "schema"@ != "primaryKey"@,
        "schema"@ != "foreignKeys"@,
        "name"@ != "kind"@,
        "name"@ != "columns"@,
        "name"@ != "indexes"@,
        "name"@ != "foreignKeys"@,
        "kind"@ != "columns"@,
        "kind"@ != "indexes"@,
        "kind"@ != "primaryKey"@,
        "kind"@ != "foreignKeys"@,
        "columns"@ != "indexes"@,
        "columns"@ != "primaryKey"@,
        "columns"@ != "foreignKeys"@,
        "indexes"@ != "primaryKey"@,
        "indexes"@ != "foreignKeys"@,
        "primaryKey"@ != "foreignKeys"@,
        "name"@ != "objects"@,
{
    reveal_strlit("name");
    reveal_strlit("kind");
    reveal_strlit("schema");
    reveal_strlit("ordinal");
    reveal_strlit("columns");
    reveal_strlit("indexes");
    reveal_strlit("objects");
    reveal_strlit("dataType");
    reveal_strlit("nullable");
    reveal_strlit("primaryKey");
    reveal_strlit("foreignKeys");
    assert("name"@.len() == 4 && "kind"@.len() == 4 && "schema"@.len() == 6);
    assert("ordinal"@.len() == 7 && "columns"@.len() == 7 && "indexes"@.len() == 7);
    assert("dataType"@.len() == 8 && "nullable"@.len() == 8 && "objects"@.len() == 7);
    assert("primaryKey"@.len() == 10 && "foreignKeys"@.len() == 11);
    assert("name"@[0] == 'n' && "kind"@[0] == 'k');
    assert("columns"@[0] == 'c' && "indexes"@[0] == 'i');
    assert("dataType"@[0] == 'd' && "nullable"@[0] == 'n');
}

/// A column is a primary key exactly where its field says that it is one, with a truth value; a
/// field that says anything else, or nothing, is none.
pub proof fn law_a_primary_key_is_one_that_says_so(field: JsonView, ordinal: u64)
    ensures
        field.field("isPrimary"@) == Some(JsonView::Bool(true)) ==> column(field, ordinal).field(
            "primaryKey"@,
        ) == Some(JsonView::Bool(true)),
        field.field("isPrimary"@) != Some(JsonView::Bool(true)) ==> column(field, ordinal).field(
            "primaryKey"@,
        ) == Some(JsonView::Bool(false)),
{
    lemma_names_differ();
}

/// A column goes by the name of its field, where that is a text, and it may always be null; its
/// type is the JSON text of what the field says under `dataType` or, without anything there, under
/// `type`; its place is the one that it is given. Nothing else is said of it.
pub proof fn law_a_column_says_what_its_field_is(field: JsonView, ordinal: u64, key: Seq<char>)
    ensures
        ({
            let shown = column(field, ordinal);
            &&& field.field("name"@) matches Some(JsonView::String(name)) ==> shown.field("name"@)
                == Some(JsonView::String(name))
            &&& !(field.field("name"@) matches Some(JsonView::String(_))) ==> shown.field("name"@)
                == Some(JsonView::String("field"@))
            &&& field.field("dataType"@) matches Some(given) ==> shown.field("dataType"@) == Some(
                JsonView::String(json_text(given)),
            )
            &&& field.field("dataType"@) is None ==> (field.field("type"@) matches Some(given)
                ==> shown.field("dataType"@) == Some(JsonView::String(json_text(given))))
            &&& field.field("dataType"@) is None && field.field("type"@) is None ==> shown.field(
                "dataType"@,
            ) == Some(JsonView::String("unknown"@))
            &&& shown.field("nullable"@) == Some(JsonView::Bool(true))
            &&& shown.field("ordinal"@) == Some(JsonView::Number(NumberView::PosInt(ordinal)))
            &&& shown.field(key) is Some <==> key == "name"@ || key == "dataType"@ || key
                == "nullable"@ || key == "ordinal"@ || key == "primaryKey"@
        }),
{
    lemma_names_differ();
}

/// A collection has a column for each of its fields, in their order, counted from one.
pub proof fn law_columns_are_counted_from_one(fields: Seq<JsonView>, i: int)
    requires
        0 <= i < fields.len(),
        fields.len() <= u64::MAX,
    ensures
        columns(fields).len() == fields.len(),
        columns(fields)[i] == column(fields[i], (i + 1) as u64),
        columns(fields)[i].field("ordinal"@) matches Some(JsonView::Number(NumberView::PosInt(n)))
            && n == i + 1,
{
    lemma_names_differ();
}

/// The fields of a collection are those of its schema; without anything there they are those that
/// stand beside it. What is no list holds none.
pub proof fn law_fields_of_the_schema_come_first(data: JsonView)
    ensures
        data.field("schema"@) matches Some(schema) ==> {
            &&& schema.field("fields"@) matches Some(JsonView::Array(items)) ==> fields_in(data)
                == items
            &&& (schema.field("fields"@) matches Some(other) && !(other is Array)) ==> fields_in(
                data,
            ).len() == 0
        },
        data.field("schema"@) is None || (data.field("schema"@)->Some_0).field("fields"@) is None
            ==> {
            &&& data.field("fields"@) matches Some(JsonView::Array(items)) ==> fields_in(data)
                == items
            &&& !(data.field("fields"@) matches Some(JsonView::Array(_))) ==> fields_in(data).len()
                == 0
        },
{
}

/// A collection is described by the reply to the question about it: by the name that the reply
/// gives, and without one by the name it was asked for by, with its columns and its indexes. It is
/// a collection of the one schema, and no keys are said of it beside those of its columns.
pub proof fn law_a_collection_says_what_its_reply_is(
    name: Seq<char>,
    reply: JsonView,
    data: JsonView,
    key: Seq<char>,
)
    requires
        match reply.field("data"@) {
            Some(given) => data == given,
            None => data == JsonView::Null,
        },
    ensures
        ({
            let shown = described(name, reply);
            &&& data.field("collectionName"@) matches Some(JsonView::String(given)) ==> shown.field(
                "name"@,
            ) == Some(JsonView::String(given))
            &&& !(data.field("collectionName"@) matches Some(JsonView::String(_))) ==> shown.field(
                "name"@,
            ) == Some(JsonView::String(name))
            &&& shown.field("columns"@) == Some(JsonView::Array(columns(fields_in(data))))
            &&& data.field("indexes"@) is Some ==> shown.field("indexes"@) == data.field(
                "indexes"@,
            )
            &&& data.field("indexes"@) is None ==> shown.field("indexes"@) == Some(
                JsonView::Array(seq![]),
            )
            &&& shown.field("schema"@) == Some(JsonView::String("default"@))
            &&& shown.field("kind"@) == Some(JsonView::String("collection"@))
            &&& shown.field("primaryKey"@) == Some(JsonView::Array(seq![]))
            &&& shown.field("foreignKeys"@) == Some(JsonView::Array(seq![]))
            &&& shown.field(key) is Some <==> key == "schema"@ || key == "name"@ || key == "kind"@
                || key == "columns"@ || key == "indexes"@ || key == "primaryKey"@ || key
                == "foreignKeys"@
        }),
{
    lemma_names_differ();
}

/// A server is described as one schema that holds all its collections, in their order.
pub proof fn law_a_server_is_one_schema(objects: Seq<JsonView>, key: Seq<char>)
    ensures
        document(objects).field(key) is Some <==> key == "schemas"@,
        document(objects).field("schemas"@) matches Some(JsonView::Array(schemas)) && {
            &&& schemas.len() == 1
            &&& schemas[0].field("name"@) == Some(JsonView::String("default"@))
            &&& schemas[0].field("objects"@) == Some(JsonView::Array(objects))
            &&& schemas[0].field(key) is Some <==> key == "name"@ || key == "objects"@
        },
{
    lemma_names_differ();
}

/// A collection is asked about by its name, and by nothing else; lists and descriptions are asked
/// for where Milvus gives them.
pub proof fn law_a_collection_is_asked_about_by_its_name(name: Seq<char>, key: Seq<char>)
    ensures
        describe_body(name).field("collectionName"@) == Some(JsonView::String(name)),
        key != "collectionName"@ ==> describe_body(name).field(key) is None,
        list_path() == "/v2/vectordb/collections/list"@,
        describe_path() == "/v2/vectordb/collections/describe"@,
{
}

/// When the replies to the first questions have been taken in, the next question is about the next
/// collection of the list, as long as there is one.
pub proof fn law_the_next_question_is_about_the_next_collection(
    names: Seq<Seq<char>>,
    replies: Seq<JsonView>,
)
    requires
        replies.len() < names.len(),
    ensures
        ({
            let load = MetadataView::begun(names).all_accepted(replies);
            &&& load.wf()
            &&& !load.is_done()
            &&& load.next_name() == names[replies.len() as int]
        }),
{
    law_every_collection_is_described(names, replies);
}

/// The names in a list are read one by one, in their order: a text is a name, an object names one
/// under `name`, and anything else is passed over.
pub proof fn law_collections_are_listed_one_by_one(
    reply: JsonView,
    items: Seq<JsonView>,
    item: JsonView,
    longer: JsonView,
)
    requires
        reply.field("data"@) == Some(JsonView::Array(items)),
        longer.field("data"@) == Some(JsonView::Array(items.push(item))),
    ensures
        items.len() == 0 ==> names_in(reply).len() == 0,
        match item {
            JsonView::String(name) => names_in(longer) == names_in(reply).push(name),
            _ => match item.field("name"@) {
                Some(JsonView::String(name)) => names_in(longer) == names_in(reply).push(name),
                _ => names_in(longer) == names_in(reply),
            },
        },
{
    assert(items.push(item).drop_last() =~= items);
}

/// Where the data of a reply is no list, the list stands in it, under `collectionNames` or, without
/// anything there, under `collection_names`; the texts in it are the names, in their order. Where
/// no list stands there, there are no names.
pub proof fn law_collections_are_listed_in_the_data(
    reply: JsonView,
    data: JsonView,
    items: Seq<JsonView>,
    item: JsonView,
    longer: JsonView,
    longer_data: JsonView,
)
    requires
        reply.field("data"@) == Some(data),
        !(data is Array),
        longer.field("data"@) == Some(longer_data),
        !(longer_data is Array),
        longer_data.field("collectionNames"@) == Some(JsonView::Array(items.push(item))) || (
        longer_data.field("collectionNames"@) is None && longer_data.field("collection_names"@)
            == Some(JsonView::Array(items.push(item)))),
    ensures
        data.field("collectionNames"@) == Some(JsonView::Array(items)) || (data.field(
            "collectionNames"@,
        ) is None && data.field("collection_names"@) == Some(JsonView::Array(items))) ==> {
            &&& items.len() == 0 ==> names_in(reply).len() == 0
            &&& item matches JsonView::String(name) ==> names_in(longer) == names_in(reply).push(
                name,
            )
            &&& !(item is String) ==> names_in(longer) == names_in(reply)
        },
        (data.field("collectionNames"@) matches Some(other) && !(other is Array)) ==> names_in(
            reply,
        ).len() == 0,
        data.field("collectionNames"@) is None && !(data.field("collection_names"@) matches Some(
            JsonView::Array(_),
        )) ==> names_in(reply).len() == 0,
{
    assert(items.push(item).drop_last() =~= items);
}

/// A reply without data lists no collection.
pub proof fn law_no_data_lists_nothing(reply: JsonView)
    requires
        reply.field("data"@) is None,
    ensures
        names_in(reply).len() == 0,
{
}

} // verus!
