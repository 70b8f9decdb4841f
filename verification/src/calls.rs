//! The calls that the driver takes, and what it answers to each.
use crate::config::{
    law_a_configuration_hides_its_own, law_no_secret_is_shown, law_no_url_is_shown, redacted,
    MilvusConfig,
};
use crate::connections::{found, Connections};
use crate::exchange::{read_reply, reply_of, Exchange, PostRequest};
use crate::json::{empty_object, items_view, natural, Json, JsonView, NumberView};
use crate::options::{text_of, texts_of, RequestOptions};
use crate::query::{requested, MilvusQuery, QueryView};
use crate::reply::{error, error_view, Reply, ReplyView};
use crate::rows::{output_view, query_output, reply_table, QueryOutput, TableView};
use crate::schema::{describe_path, list_path, names_in, probe};
use crate::text::{apart, occurs, same_text};
use crate::tls::{build_failure, built_with, PemFiles};
use crate::value::{parse, parsed};
use vstd::prelude::*;

verus! {

/// A connection: the client, and how it reaches the server.
#[derive(Debug)]
pub struct MilvusConnection {
    pub client: reqwest::Client,
    pub config: MilvusConfig,
}

/// What the driver says of itself.
#[derive(Debug)]
pub struct ConnectorInfo {
    pub engine: String,
    pub abi_version: Json,
    pub driver_linked: bool,
    pub manifest_json: String,
    pub config_json: String,
}

/// The fields of a request in which a query may stand.
#[derive(Debug)]
pub struct QueryFields {
    pub query: Option<String>,
    pub sql: Option<String>,
    pub statement: Option<String>,
    pub collection: Option<String>,
}

/// What a call comes to: an answer, or work to be done before there is one.
#[derive(Debug, PartialEq)]
pub enum Call {
    Answered(Reply),
    Connect,
    Query,
    Metadata,
    Close,
}

/// What a call comes to.
#[verifier::ext_equal]
pub enum CallView {
    Answered(ReplyView),
    Connect,
    Query,
    Metadata,
    Close,
}

impl View for Call {
    type V = CallView;

    open spec fn view(&self) -> CallView {
        match *self {
            Call::Answered(reply) => CallView::Answered(reply@),
            Call::Connect => CallView::Connect,
            Call::Query => CallView::Query,
            Call::Metadata => CallView::Metadata,
            Call::Close => CallView::Close,
        }
    }
}

/// What a text holds as JSON, and null where it holds nothing.
pub open spec fn embedded(text: Seq<char>) -> JsonView {
    match parsed(text) {
        Ok(value) => value,
        Err(_) => JsonView::Null,
    }
}

impl ConnectorInfo {
    /// What the driver says of its health.
    pub open spec fn health(self) -> JsonView {
        empty_object()
            .with("engine"@, JsonView::String(self.engine@))
            .with("abiVersion"@, self.abi_version@)
            .with("driverLinked"@, JsonView::Bool(self.driver_linked))
    }

    /// What the driver says of what it can do.
    pub open spec fn description(self) -> JsonView {
        self.health()
            .with("manifest"@, embedded(self.manifest_json@))
            .with("config"@, embedded(self.config_json@))
    }

    /// What a call of a method comes to.
    pub open spec fn called(self, method: Seq<char>) -> CallView {
        if method == "health"@ || method == "ping"@ {
            CallView::Answered(ReplyView::Success(self.health()))
        } else if method == "describe"@ || method == "capabilities"@ {
            CallView::Answered(ReplyView::Success(self.description()))
        } else if method == "manifest"@ {
            CallView::Answered(ReplyView::Raw(self.manifest_json@))
        } else if method == "config"@ {
            CallView::Answered(ReplyView::Raw(self.config_json@))
        } else if method == "connect"@ {
            CallView::Connect
        } else if method == "query"@ {
            CallView::Query
        } else if method == "metadata"@ {
            CallView::Metadata
        } else if method == "close"@ {
            CallView::Close
        } else {
            CallView::Answered(
                error_view("connector.unknownMethod"@, "unknown connector method: "@ + method),
            )
        }
    }

    /// What is said of a connection that has been made.
    pub open spec fn connected_reply(
        self,
        id: Seq<char>,
        base_url: Seq<char>,
        count: usize,
    ) -> ReplyView {
        ReplyView::Success(
            empty_object()
                .with("engine"@, JsonView::String(self.engine@))
                .with("connectionId"@, JsonView::String(id))
                .with("driverLinked"@, JsonView::Bool(self.driver_linked))
                .with("endpoint"@, JsonView::String(base_url))
                .with("collectionCount"@, natural(count as u64)),
        )
    }
}

impl QueryFields {
    /// The query: the first of the fields that is given.
    pub open spec fn input(self) -> Option<Seq<char>> {
        match (self.query, self.sql, self.statement, self.collection) {
            (Some(input), _, _, _) => Some(input@),
            (None, Some(input), _, _) => Some(input@),
            (None, None, Some(input), _) => Some(input@),
            (None, None, None, Some(input)) => Some(input@),
            (None, None, None, None) => None,
        }
    }
}

/// The query that a request asks for, or what is said where it asks for none that can be sent.
pub open spec fn query_asked_for(
    fields: QueryFields,
    options: RequestOptions,
    cap: usize,
) -> Result<QueryView, ReplyView> {
    match fields.input() {
        Some(input) => match requested(input, text_of(options.collection), cap) {
            Ok(query) => Ok(query),
            Err(why) => Err(error_view("connector.invalidRequest"@, why)),
        },
        None => Err(
            error_view(
                "connector.invalidRequest"@,
                "query requires a collection name or JSON Milvus query."@,
            ),
        ),
    }
}

/// The open connection with an id, or what is said where there is none.
pub open spec fn connection_in(
    open: Option<&Connections<MilvusConnection>>,
    id: Seq<char>,
) -> Result<MilvusConnection, ReplyView> {
    match open {
        Some(connections) => found(connections@, id),
        None => Err(poisoned()),
    }
}

/// What is said of a failure, without the URL and the secrets of the configuration.
pub open spec fn failure(code: Seq<char>, config: MilvusConfig, why: Seq<char>) -> ReplyView {
    error_view(code, config.shown(why))
}

/// What is said where the state of the driver cannot be trusted.
pub open spec fn poisoned() -> ReplyView {
    error_view("connector.statePoisoned"@, "Connector connection state is poisoned."@)
}

/// What is said of a table.
pub open spec fn table_reply(id: Seq<char>, shown: TableView) -> ReplyView {
    ReplyView::Success(
        empty_object()
            .with("connectionId"@, JsonView::String(id))
            .with("columns"@, JsonView::Array(strings(shown.columns)))
            .with("rows"@, JsonView::Array(arrays(shown.rows)))
            .with("truncated"@, JsonView::Bool(shown.truncated)),
    )
}

/// Texts as JSON strings.
pub open spec fn strings(texts: Seq<Seq<char>>) -> Seq<JsonView> {
    Seq::new(texts.len(), |i: int| JsonView::String(texts[i]))
}

/// Lists as JSON arrays.
pub open spec fn arrays(lists: Seq<Seq<JsonView>>) -> Seq<JsonView> {
    Seq::new(lists.len(), |i: int| JsonView::Array(lists[i]))
}

/// What is said of a query, from what came of sending it.
pub open spec fn query_answer(
    id: Seq<char>,
    config: MilvusConfig,
    cap: usize,
    reply: Result<JsonView, Seq<char>>,
) -> ReplyView {
    match reply {
        Ok(value) => table_reply(id, reply_table(value, cap)),
        Err(why) => failure("connector.queryFailed"@, config, why),
    }
}

/// What is said of the description of a server.
pub open spec fn metadata_answer(
    id: Seq<char>,
    config: MilvusConfig,
    outcome: Result<JsonView, Seq<char>>,
) -> ReplyView {
    match outcome {
        Ok(metadata) => ReplyView::Success(
            empty_object().with("connectionId"@, JsonView::String(id)).with(
                "metadata"@,
                metadata,
            ),
        ),
        Err(why) => failure("connector.metadataFailed"@, config, why),
    }
}

/// What is said of a connection that was to be closed.
pub open spec fn closed_reply(id: Seq<char>, existed: bool) -> ReplyView {
    ReplyView::Success(
        empty_object().with("connectionId"@, JsonView::String(id)).with(
            "closed"@,
            JsonView::Bool(existed),
        ),
    )
}

/// What a text holds as JSON, and null where it holds nothing.
fn embed(text: &str) -> (r: Json)
    ensures
        r@ == embedded(text@),
{
    match parse(text) {
        Ok(value) => value,
        Err(_) => Json::Null,
    }
}

/// What the driver says of its health.
fn health_fields(info: &ConnectorInfo) -> (r: Json)
    ensures
        r@ == info.health(),
{
    Json::object().with("engine", Json::string(info.engine.as_str())).with(
        "abiVersion",
        info.abi_version.copy(),
    ).with("driverLinked", Json::Bool(info.driver_linked))
}

/// What a call of a method comes to.
pub fn call_json(info: &ConnectorInfo, method: &str) -> (r: Call)
    ensures
        r@ == info.called(method@),
{
    if same_text(method, "health") || same_text(method, "ping") {
        Call::Answered(Reply::Success(health_fields(info)))
    } else if same_text(method, "describe") || same_text(method, "capabilities") {
        Call::Answered(
            Reply::Success(
                health_fields(info).with("manifest", embed(info.manifest_json.as_str())).with(
                    "config",
                    embed(info.config_json.as_str()),
                ),
            ),
        )
    } else if same_text(method, "manifest") {
        Call::Answered(Reply::Raw(info.manifest_json.clone()))
    } else if same_text(method, "config") {
        Call::Answered(Reply::Raw(info.config_json.clone()))
    } else if same_text(method, "connect") {
        Call::Connect
    } else if same_text(method, "query") {
        Call::Query
    } else if same_text(method, "metadata") {
        Call::Metadata
    } else if same_text(method, "close") {
        Call::Close
    } else {
        let message = "unknown connector method: ".to_owned().concat(method);
        Call::Answered(error("connector.unknownMethod", message.as_str()))
    }
}

/// What is said of a failure, without the URL and the secrets of the configuration.
fn fail(code: &str, config: &MilvusConfig, why: &str) -> (r: Reply)
    ensures
        r@ == failure(code@, *config, why@),
{
    error(code, config.redact(why).as_str())
}

/// What is said where the state of the driver cannot be trusted.
pub fn state_poisoned() -> (r: Reply)
    ensures
        r@ == poisoned(),
{
    error("connector.statePoisoned", "Connector connection state is poisoned.")
}

impl MilvusConfig {
    /// The request that lists the collections of the server.
    pub fn list_request(&self) -> (r: PostRequest)
        ensures
            r.url@ == self.base_url@ + list_path(),
            r.token == self.token,
            r.body@ == empty_object(),
            r.goes_to(*self, "/v2/vectordb/collections/list"@, empty_object()),
    {
        self.post("/v2/vectordb/collections/list", Json::object())
    }

    /// The request that asks about a collection.
    pub fn describe_request(&self, body: Json) -> (r: PostRequest)
        ensures
            r.url@ == self.base_url@ + describe_path(),
            r.token == self.token,
            r.body == body,
            r.goes_to(*self, "/v2/vectordb/collections/describe"@, body@),
    {
        self.post("/v2/vectordb/collections/describe", body)
    }
}

/// Sets a connection up: the client, ready to be tried out, or what is said where there is none.
pub fn connect(config: MilvusConfig, files: PemFiles) -> (r: Result<MilvusConnection, Reply>)
    ensures
        match config.tls.settings(files) {
            Ok(settings) => match r {
                Ok(connection) => connection.config == config && built_with(connection.client)
                    == settings,
                Err(reply) => reply@ == failure(
                    "connector.invalidRequest"@,
                    config,
                    config.tls.setup_failure(build_failure()),
                ),
            },
            Err(why) => r matches Err(reply) && reply@ == failure(
                "connector.invalidRequest"@,
                config,
                why,
            ),
        },
{
    match config.tls.build_client(files) {
        Ok(client) => Ok(MilvusConnection { client, config }),
        Err(why) => Err(fail("connector.invalidRequest", &config, why.as_str())),
    }
}

/// Tries a connection out, from what came of listing the collections: how many there are, or what
/// is said where the server cannot be reached.
pub fn try_out(config: &MilvusConfig, list: Exchange) -> (r: Result<usize, Reply>)
    requires
        list.wf(),
    ensures
        match list.reply() {
            Ok(reply) => r matches Ok(count) && count == names_in(reply).len(),
            Err(why) => r matches Err(reply) && reply@ == failure(
                "connector.connectFailed"@,
                *config,
                why,
            ),
        },
{
    match probe(list) {
        Ok(count) => Ok(count),
        Err(why) => Err(fail("connector.connectFailed", config, why.as_str())),
    }
}

/// Opens a connection that has been tried out.
pub fn connected(
    info: &ConnectorInfo,
    connections: &mut Connections<MilvusConnection>,
    id: String,
    connection: MilvusConnection,
    count: usize,
) -> (r: Reply)
    ensures
        final(connections)@ == old(connections)@.insert(id@, connection),
        r@ == info.connected_reply(id@, connection.config.base_url@, count),
{
    let fields = Json::object().with("engine", Json::string(info.engine.as_str())).with(
        "connectionId",
        Json::string(id.as_str()),
    ).with("driverLinked", Json::Bool(info.driver_linked)).with(
        "endpoint",
        Json::string(connection.config.base_url.as_str()),
    ).with("collectionCount", Json::natural(count as u64));
    connections.insert(id, connection);
    Reply::Success(fields)
}

/// The query that a request asks for, or what is said where it asks for none that can be sent.
fn asked_query(fields: &QueryFields, options: &RequestOptions, cap: usize) -> (r: Result<
    MilvusQuery,
    Reply,
>)
    ensures
        match r {
            Ok(query) => query_asked_for(*fields, *options, cap) == Ok::<QueryView, ReplyView>(
                query@,
            ),
            Err(reply) => query_asked_for(*fields, *options, cap) == Err::<QueryView, ReplyView>(
                reply@,
            ),
        },
{
    let input = match (&fields.query, &fields.sql, &fields.statement, &fields.collection) {
        (Some(input), _, _, _) => input.as_str(),
        (None, Some(input), _, _) => input.as_str(),
        (None, None, Some(input), _) => input.as_str(),
        (None, None, None, Some(input)) => input.as_str(),
        (None, None, None, None) => {
            return Err(
                error(
                    "connector.invalidRequest",
                    "query requires a collection name or JSON Milvus query.",
                ),
            );
        },
    };
    match MilvusQuery::from_input(input, options, cap) {
        Ok(query) => Ok(query),
        Err(why) => Err(error("connector.invalidRequest", why.as_str())),
    }
}

/// The open connection with an id, or what is said where there is none. Where there is no table of
/// connections to look at, the state of the driver cannot be trusted.
pub fn connection<'a>(open: Option<&'a Connections<MilvusConnection>>, id: &str) -> (r: Result<
    &'a MilvusConnection,
    Reply,
>)
    ensures
        match r {
            Ok(connection) => connection_in(open, id@) == Ok::<MilvusConnection, ReplyView>(
                *connection,
            ),
            Err(reply) => connection_in(open, id@) == Err::<MilvusConnection, ReplyView>(reply@),
        },
{
    match open {
        Some(connections) => connections.connection(id),
        None => Err(state_poisoned()),
    }
}

/// The query that a request asks for and the connection to send it over, or what is said where one
/// of the two is missing. A query that cannot be sent is told first.
pub fn query<'a>(
    open: Option<&'a Connections<MilvusConnection>>,
    id: &str,
    fields: &QueryFields,
    options: &RequestOptions,
    cap: usize,
) -> (r: Result<(&'a MilvusConnection, MilvusQuery), Reply>)
    ensures
        match (query_asked_for(*fields, *options, cap), connection_in(open, id@)) {
            (Err(reply), _) => r matches Err(said) && said@ == reply,
            (Ok(_), Err(reply)) => r matches Err(said) && said@ == reply,
            (Ok(query), Ok(connection)) => r matches Ok(found) && *found.0 == connection
                && found.1@ == query,
        },
{
    match asked_query(fields, options, cap) {
        Ok(query) => match connection(open, id) {
            Ok(connection) => Ok((connection, query)),
            Err(reply) => Err(reply),
        },
        Err(reply) => Err(reply),
    }
}

/// What is said of a table.
pub fn table_fields(id: &str, output: QueryOutput) -> (r: Reply)
    ensures
        r@ == table_reply(id@, output_view(output)),
{
    let (columns, rows, truncated) = output;
    let ghost shown = output_view(output);
    let mut names: Vec<Json> = Vec::new();
    let ghost all_columns = columns@;
    for column in it: columns
        invariant
            it.seq() == all_columns,
            names.len() == it.index(),
            forall|j: int|
                0 <= j < names.len() ==> (#[trigger] names@[j])@ == JsonView::String(
                    all_columns[j]@,
                ),
    {
        names.push(Json::String(column));
    }
    assert(items_view(names@) =~= strings(shown.columns));
    let mut lists: Vec<Json> = Vec::new();
    let ghost all_rows = rows@;
    for row in it: rows
        invariant
            it.seq() == all_rows,
            lists.len() == it.index(),
            forall|j: int|
                0 <= j < lists.len() ==> (#[trigger] lists@[j])@ == JsonView::Array(
                    items_view(all_rows[j]@),
                ),
    {
        lists.push(Json::Array(row));
    }
    assert(items_view(lists@) =~= arrays(shown.rows));
    Reply::Success(
        Json::object().with("connectionId", Json::string(id)).with(
            "columns",
            Json::Array(names),
        ).with("rows", Json::Array(lists)).with("truncated", Json::Bool(truncated)),
    )
}

/// What is said of a query, from what came of sending it.
pub fn query_reply(id: &str, config: &MilvusConfig, cap: usize, exchange: Exchange) -> (r: Reply)
    requires
        exchange.wf(),
    ensures
        r@ == query_answer(id@, *config, cap, exchange.reply()),
{
    match read_reply(exchange) {
        Ok(reply) => table_fields(id, query_output(reply, cap)),
        Err(why) => fail("connector.queryFailed", config, why.as_str()),
    }
}

/// What is said of the description of a server.
pub fn metadata(id: &str, config: &MilvusConfig, outcome: Result<Json, String>) -> (r: Reply)
    ensures
        r@ == metadata_answer(id@, *config, reply_of(outcome)),
{
    match outcome {
        Ok(metadata) => Reply::Success(
            Json::object().with("connectionId", Json::string(id)).with("metadata", metadata),
        ),
        Err(why) => fail("connector.metadataFailed", config, why.as_str()),
    }
}

/// Closes a connection.
pub fn close<C>(connections: &mut Connections<C>, id: &str) -> (r: Reply)
    ensures
        final(connections)@ == old(connections)@.remove(id@),
        r@ == closed_reply(id@, old(connections)@.contains_key(id@)),
{
    let existed = connections.remove(id);
    Reply::Success(
        Json::object().with("connectionId", Json::string(id)).with(
            "closed",
            Json::Bool(existed),
        ),
    )
}

/// Two names of a call come to the same answer.
pub proof fn law_methods_have_two_names(info: ConnectorInfo)
    ensures
        info.called("health"@) == info.called("ping"@),
        info.called("describe"@) == info.called("capabilities"@),
{
    reveal_strlit("health");
    reveal_strlit("ping");
    reveal_strlit("describe");
    reveal_strlit("capabilities");
    assert("health"@.len() == 6 && "ping"@.len() == 4);
    assert("describe"@.len() == 8 && "capabilities"@.len() == 12);
}

/// No failure that is reported on behalf of a connection shows a secret of it, whatever the
/// failure was, unless the secret can meet the stars that are put in its place.
pub proof fn law_no_failure_shows_a_secret(
    code: Seq<char>,
    config: MilvusConfig,
    why: Seq<char>,
    k: int,
)
    requires
        0 <= k < config.redaction_values.len(),
        apart(config.redaction_values[k]@, "****"@),
    ensures
        failure(code, config, why) matches ReplyView::Error { code: _, message } && !occurs(
            message,
            config.redaction_values[k]@,
        ),
{
    law_no_secret_is_shown(why, config.base_url@, texts_of(config.redaction_values@), k);
}

/// The names of the calls and of what is answered to them are all different.
proof fn lemma_names_differ()
    ensures
        "engine"@ != "abiVersion"@,
        "engine"@ != "driverLinked"@,
        "engine"@ != "manifest"@,
        "engine"@ != "config"@,
        "abiVersion"@ != "driverLinked"@,
        "abiVersion"@ != "manifest"@,
        "abiVersion"@ != "config"@,
        "driverLinked"@ != "manifest"@,
        "driverLinked"@ != "config"@,
        "manifest"@ != "config"@,
        "engine"@ != "connectionId"@,
        "engine"@ != "endpoint"@,
        "engine"@ != "collectionCount"@,
        "connectionId"@ != "driverLinked"@,
        "connectionId"@ != "endpoint"@,
        "connectionId"@ != "collectionCount"@,
        "driverLinked"@ != "endpoint"@,
        "driverLinked"@ != "collectionCount"@,
        "endpoint"@ != "collectionCount"@,
        "connectionId"@ != "columns"@,
        "connectionId"@ != "rows"@,
        "connectionId"@ != "truncated"@,
        "columns"@ != "rows"@,
        "columns"@ != "truncated"@,
        "rows"@ != "truncated"@,
        "connectionId"@ != "metadata"@,
        "connectionId"@ != "closed"@,
{
    reveal_strlit("engine");
    reveal_strlit("abiVersion");
    reveal_strlit("driverLinked");
    reveal_strlit("manifest");
    reveal_strlit("config");
    reveal_strlit("connectionId");
    reveal_strlit("endpoint");
    reveal_strlit("collectionCount");
    reveal_strlit("columns");
    reveal_strlit("rows");
    reveal_strlit("truncated");
    reveal_strlit("metadata");
    reveal_strlit("closed");
    assert("engine"@.len() == 6 && "config"@.len() == 6 && "closed"@.len() == 6);
    assert("engine"@[0] == 'e' && "config"@[0] == 'c');
    assert("abiVersion"@.len() == 10 && "manifest"@.len() == 8 && "endpoint"@.len() == 8);
    assert("driverLinked"@.len() == 12 && "connectionId"@.len() == 12);
    assert("driverLinked"@[0] == 'd' && "connectionId"@[0] == 'c');
    assert("collectionCount"@.len() == 15 && "columns"@.len() == 7 && "rows"@.len() == 4);
    assert("truncated"@.len() == 9 && "metadata"@.len() == 8);
}

proof fn lemma_methods_differ()
    ensures
        "health"@ != "describe"@,
        "health"@ != "capabilities"@,
        "health"@ != "manifest"@,
        "health"@ != "config"@,
        "health"@ != "connect"@,
        "health"@ != "query"@,
        "health"@ != "metadata"@,
        "health"@ != "close"@,
        "ping"@ != "describe"@,
        "ping"@ != "capabilities"@,
        "ping"@ != "manifest"@,
        "ping"@ != "config"@,
        "ping"@ != "connect"@,
        "ping"@ != "query"@,
        "ping"@ != "metadata"@,
        "ping"@ != "close"@,
        "describe"@ != "manifest"@,
        "describe"@ != "config"@,
        "describe"@ != "connect"@,
        "describe"@ != "query"@,
        "describe"@ != "metadata"@,
        "describe"@ != "close"@,
        "capabilities"@ != "manifest"@,
        "capabilities"@ != "config"@,
        "capabilities"@ != "connect"@,
        "capabilities"@ != "query"@,
        "capabilities"@ != "metadata"@,
        "capabilities"@ != "close"@,
        "manifest"@ != "config"@,
        "manifest"@ != "connect"@,
        "manifest"@ != "query"@,
        "manifest"@ != "metadata"@,
        "manifest"@ != "close"@,
        "config"@ != "connect"@,
        "config"@ != "query"@,
        "config"@ != "metadata"@,
        "config"@ != "close"@,
        "connect"@ != "query"@,
        "connect"@ != "metadata"@,
        "connect"@ != "close"@,
        "query"@ != "metadata"@,
        "query"@ != "close"@,
        "metadata"@ != "close"@,
{
    reveal_strlit("health");
    reveal_strlit("ping");
    reveal_strlit("describe");
    reveal_strlit("capabilities");
    reveal_strlit("manifest");
    reveal_strlit("config");
    reveal_strlit("connect");
    reveal_strlit("query");
    reveal_strlit("metadata");
    reveal_strlit("close");
    assert("health"@.len() == 6 && "config"@.len() == 6 && "ping"@.len() == 4);
    assert("health"@[0] == 'h' && "config"@[0] == 'c');
    assert("describe"@.len() == 8 && "manifest"@.len() == 8 && "metadata"@.len() == 8);
    assert("describe"@[0] == 'd' && "manifest"@[1] == 'a' && "metadata"@[1] == 'e');
    assert("manifest"@[0] == 'm' && "metadata"@[0] == 'm');
    assert("capabilities"@.len() == 12 && "connect"@.len() == 7);
    assert("query"@.len() == 5 && "close"@.len() == 5);
    assert("query"@[0] == 'q' && "close"@[0] == 'c');
}

/// Asked for its health, the driver tells the engine, the version of the interface and whether it
/// is linked, and nothing else.
pub proof fn law_health_is_told(info: ConnectorInfo, method: Seq<char>, key: Seq<char>)
    requires
        method == "health"@ || method == "ping"@,
    ensures
        info.called(method) matches CallView::Answered(ReplyView::Success(fields)) && {
            &&& fields.field("engine"@) == Some(JsonView::String(info.engine@))
            &&& fields.field("abiVersion"@) == Some(info.abi_version@)
            &&& fields.field("driverLinked"@) == Some(JsonView::Bool(info.driver_linked))
            &&& fields.field(key) is Some <==> key == "engine"@ || key == "abiVersion"@ || key
                == "driverLinked"@
        },
{
    lemma_names_differ();
}

/// Asked to describe itself, the driver tells what it tells of its health, and beside that what its
/// manifest and its configuration hold as JSON; null stands only for a text that holds nothing.
pub proof fn law_a_description_holds_manifest_and_configuration(
    info: ConnectorInfo,
    method: Seq<char>,
    key: Seq<char>,
)
    requires
        method == "describe"@ || method == "capabilities"@,
    ensures
        info.called(method) matches CallView::Answered(ReplyView::Success(fields)) && {
            &&& fields.field("engine"@) == Some(JsonView::String(info.engine@))
            &&& fields.field("abiVersion"@) == Some(info.abi_version@)
            &&& fields.field("driverLinked"@) == Some(JsonView::Bool(info.driver_linked))
            &&& match parsed(info.manifest_json@) {
                Ok(value) => fields.field("manifest"@) == Some(value),
                Err(_) => fields.field("manifest"@) == Some(JsonView::Null),
            }
            &&& match parsed(info.config_json@) {
                Ok(value) => fields.field("config"@) == Some(value),
                Err(_) => fields.field("config"@) == Some(JsonView::Null),
            }
            &&& fields.field(key) is Some <==> key == "engine"@ || key == "abiVersion"@ || key
                == "driverLinked"@ || key == "manifest"@ || key == "config"@
        },
{
    lemma_names_differ();
    lemma_methods_differ();
}

/// Manifest and configuration are handed out as they are, character by character, when they are
/// asked for; the four calls that are work are told apart; and every other call is an error that
/// names it.
pub proof fn law_every_other_call_is_told_apart(info: ConnectorInfo, method: Seq<char>)
    ensures
        method == "manifest"@ ==> info.called(method) == CallView::Answered(
            ReplyView::Raw(info.manifest_json@),
        ),
        method == "config"@ ==> info.called(method) == CallView::Answered(
            ReplyView::Raw(info.config_json@),
        ),
        info.called(method) is Connect <==> method == "connect"@,
        info.called(method) is Query <==> method == "query"@,
        info.called(method) is Metadata <==> method == "metadata"@,
        info.called(method) is Close <==> method == "close"@,
        method != "health"@ && method != "ping"@ && method != "describe"@ && method
            != "capabilities"@ && method != "manifest"@ && method != "config"@ && method
            != "connect"@ && method != "query"@ && method != "metadata"@ && method != "close"@ ==> (
        info.called(method) matches CallView::Answered(ReplyView::Error { code, message }) && code
            == "connector.unknownMethod"@ && message == "unknown connector method: "@ + method),
{
    lemma_methods_differ();
}

/// Of a connection that has been made the driver tells the id, the URL that it goes to and how many
/// collections there are, beside what the driver is.
pub proof fn law_a_connection_is_told_of(
    info: ConnectorInfo,
    id: Seq<char>,
    base_url: Seq<char>,
    count: usize,
    key: Seq<char>,
)
    ensures
        info.connected_reply(id, base_url, count) matches ReplyView::Success(fields) && {
            &&& fields.field("engine"@) == Some(JsonView::String(info.engine@))
            &&& fields.field("connectionId"@) == Some(JsonView::String(id))
            &&& fields.field("driverLinked"@) == Some(JsonView::Bool(info.driver_linked))
            &&& fields.field("endpoint"@) == Some(JsonView::String(base_url))
            &&& fields.field("collectionCount"@) == Some(
                JsonView::Number(NumberView::PosInt(count as u64)),
            )
            &&& fields.field(key) is Some <==> key == "engine"@ || key == "connectionId"@ || key
                == "driverLinked"@ || key == "endpoint"@ || key == "collectionCount"@
        },
{
    lemma_names_differ();
}

/// The query stands in the first of its four fields that is given, whatever stands in the others.
pub proof fn law_the_first_field_that_is_given_counts(fields: QueryFields)
    ensures
        fields.query matches Some(input) ==> fields.input() == Some(input@),
        fields.query is None ==> (fields.sql matches Some(input) ==> fields.input() == Some(
            input@,
        )),
        fields.query is None && fields.sql is None ==> (fields.statement matches Some(input)
            ==> fields.input() == Some(input@)),
        fields.query is None && fields.sql is None && fields.statement is None ==> fields.input()
            == text_of(fields.collection),
        fields.input() is None <==> fields.query is None && fields.sql is None
            && fields.statement is None && fields.collection is None,
{
}

/// The query that is sent is the one that the field asks for, with the collection of the request in
/// reserve; a request without a query, or with one that cannot be sent, is invalid, and told why.
pub proof fn law_a_request_asks_for_its_query(
    fields: QueryFields,
    options: RequestOptions,
    cap: usize,
)
    ensures
        fields.input() is None ==> (query_asked_for(fields, options, cap) matches Err(
            ReplyView::Error { code, message },
        ) && code == "connector.invalidRequest"@ && message
            == "query requires a collection name or JSON Milvus query."@),
        fields.input() matches Some(input) ==> {
            let reserve = match options.collection {
                Some(name) => Some(name@),
                None => None,
            };
            match requested(input, reserve, cap) {
                Ok(query) => query_asked_for(fields, options, cap) == Ok::<QueryView, ReplyView>(
                    query,
                ),
                Err(why) => query_asked_for(fields, options, cap) matches Err(
                    ReplyView::Error { code, message },
                ) && code == "connector.invalidRequest"@ && message == why,
            }
        },
{
}

/// A connection is looked up among those that are open; where there is no telling which are, the
/// state of the driver is told to be poisoned.
pub proof fn law_a_connection_is_looked_up(
    open: Option<&Connections<MilvusConnection>>,
    id: Seq<char>,
)
    ensures
        open matches Some(connections) ==> {
            &&& connections@.contains_key(id) ==> connection_in(open, id) == Ok::<
                MilvusConnection,
                ReplyView,
            >(connections@[id])
            &&& !connections@.contains_key(id) ==> (connection_in(open, id) matches Err(
                ReplyView::Error { code, message },
            ) && code == "connector.connectionNotFound"@ && message == "no open connection: "@
                + id)
        },
        open is None ==> connection_in(open, id) == Err::<MilvusConnection, ReplyView>(poisoned()),
        poisoned() matches ReplyView::Error { code, message } && code
            == "connector.statePoisoned"@ && message == "Connector connection state is poisoned."@,
{
}

/// A failure is told under its code, in the words that the configuration lets be shown: no URL of
/// it stands there unless that can meet what is put in its place, and words without the URL and
/// without a secret are kept.
pub proof fn law_a_failure_is_told_in_words_that_may_be_shown(
    code: Seq<char>,
    config: MilvusConfig,
    why: Seq<char>,
)
    ensures
        failure(code, config, why) matches ReplyView::Error { code: told, message } && {
            &&& told == code
            &&& message == redacted(
                why,
                config.base_url@,
                config.redaction_values@.map_values(|secret: String| secret@),
            )
            &&& apart(config.base_url@, "<milvus-url>"@) && apart(config.base_url@, "****"@)
                ==> !occurs(message, config.base_url@)
        },
{
    law_a_configuration_hides_its_own(config, why);
    if apart(config.base_url@, "<milvus-url>"@) && apart(config.base_url@, "****"@) {
        law_no_url_is_shown(why, config.base_url@, texts_of(config.redaction_values@));
    }
}

/// A table is told with the id of its connection, its columns and its rows as they are, in their
/// order, and whether rows were left out.
pub proof fn law_a_table_is_told_as_it_is(id: Seq<char>, shown: TableView, key: Seq<char>)
    ensures
        table_reply(id, shown) matches ReplyView::Success(fields) && {
            &&& fields.field("connectionId"@) == Some(JsonView::String(id))
            &&& fields.field("columns"@) matches Some(JsonView::Array(columns)) && columns.len()
                == shown.columns.len() && forall|c: int|
                0 <= c < columns.len() ==> #[trigger] columns[c] == JsonView::String(
                    shown.columns[c],
                )
            &&& fields.field("rows"@) matches Some(JsonView::Array(rows)) && rows.len()
                == shown.rows.len() && forall|i: int|
                0 <= i < rows.len() ==> #[trigger] rows[i] == JsonView::Array(shown.rows[i])
            &&& fields.field("truncated"@) == Some(JsonView::Bool(shown.truncated))
            &&& fields.field(key) is Some <==> key == "connectionId"@ || key == "columns"@ || key
                == "rows"@ || key == "truncated"@
        },
{
    lemma_names_differ();
}

/// A query is answered with the table of the reply, and a query that failed with why.
pub proof fn law_a_query_is_answered_by_its_reply(
    id: Seq<char>,
    config: MilvusConfig,
    cap: usize,
    reply: Result<JsonView, Seq<char>>,
)
    ensures
        reply matches Ok(value) ==> query_answer(id, config, cap, reply) == table_reply(
            id,
            reply_table(value, cap),
        ),
        reply matches Err(why) ==> (query_answer(id, config, cap, reply) matches ReplyView::Error {
            code,
            message,
        } && code == "connector.queryFailed"@ && message == config.shown(why)),
{
}

/// The description of a server is handed on as it is, with the id of the connection, and one that
/// failed is told with why.
pub proof fn law_a_description_is_handed_on(
    id: Seq<char>,
    config: MilvusConfig,
    outcome: Result<JsonView, Seq<char>>,
    key: Seq<char>,
)
    ensures
        outcome matches Ok(metadata) ==> (metadata_answer(id, config, outcome) matches
            ReplyView::Success(fields) && {
            &&& fields.field("connectionId"@) == Some(JsonView::String(id))
            &&& fields.field("metadata"@) == Some(metadata)
            &&& fields.field(key) is Some <==> key == "connectionId"@ || key == "metadata"@
        }),
        outcome matches Err(why) ==> (metadata_answer(id, config, outcome) matches
            ReplyView::Error { code, message } && code == "connector.metadataFailed"@ && message
            == config.shown(why)),
{
    lemma_names_differ();
}

/// Of a connection that was to be closed the driver tells the id, and whether it was open.
pub proof fn law_closing_tells_whether_it_was_open(id: Seq<char>, existed: bool, key: Seq<char>)
    ensures
        closed_reply(id, existed) matches ReplyView::Success(fields) && {
            &&& fields.field("connectionId"@) == Some(JsonView::String(id))
            &&& fields.field("closed"@) == Some(JsonView::Bool(existed))
            &&& fields.field(key) is Some <==> key == "connectionId"@ || key == "closed"@
        },
{
    lemma_names_differ();
}

/// What a call comes to is seen as it is.
pub proof fn law_a_call_is_seen_as_it_is(call: Call)
    ensures
        call matches Call::Answered(reply) ==> call@ == CallView::Answered(reply@),
        call is Connect <==> call@ is Connect,
        call is Query <==> call@ is Query,
        call is Metadata <==> call@ is Metadata,
        call is Close <==> call@ is Close,
{
}

} // verus!
