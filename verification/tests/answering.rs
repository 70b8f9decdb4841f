use milvus_connector::calls::{
    call_json, close, connect, connected, connection, metadata, query, query_reply,
    state_poisoned, table_fields, try_out, Call, ConnectorInfo, MilvusConnection, QueryFields,
};
use milvus_connector::config::MilvusConfig;
use milvus_connector::connections::Connections;
use milvus_connector::exchange::{check_reply, read_reply, Exchange};
use milvus_connector::json::Json;
use milvus_connector::options::RequestOptions;
use milvus_connector::reply::Reply;
use milvus_connector::schema::{collection_names, describe_collection, probe, MetadataLoad};
use milvus_connector::tls::PemFiles;
use milvus_connector::value::{parse, print};

fn json(text: &str) -> Json {
    parse(text).unwrap()
}

fn answered(text: &str) -> Exchange {
    Exchange::Answered {
        status: 200,
        text: text.to_string(),
    }
}

fn error(code: &str, message: &str) -> Reply {
    Reply::Error {
        code: code.to_string(),
        message: message.to_string(),
    }
}

/// The fields of a success, as JSON text.
fn fields(reply: &Reply) -> String {
    match reply {
        Reply::Success(fields) => print(fields),
        other => panic!("{other:?}"),
    }
}

fn info() -> ConnectorInfo {
    ConnectorInfo {
        engine: "milvus".to_string(),
        abi_version: Json::natural(1),
        driver_linked: true,
        manifest_json: r#"{"id":"irodori.milvus"}"#.to_string(),
        config_json: "not json".to_string(),
    }
}

fn config() -> MilvusConfig {
    let options = RequestOptions {
        host: Some("db".to_string()),
        token: Some("s3cret".to_string()),
        ..RequestOptions::default()
    };
    MilvusConfig::from_request(&options, vec!["s3cret".to_string()]).unwrap()
}

fn no_files() -> PemFiles {
    PemFiles {
        root: Ok(Vec::new()),
        client_cert: Ok(Vec::new()),
        client_key: Ok(Vec::new()),
    }
}

fn made() -> MilvusConnection {
    connect(config(), no_files()).unwrap()
}

#[test]
fn health_is_told_under_two_names() {
    for method in ["health", "ping"] {
        let Call::Answered(reply) = call_json(&info(), method) else {
            panic!("{method}")
        };
        assert_eq!(
            fields(&reply),
            r#"{"abiVersion":1,"driverLinked":true,"engine":"milvus"}"#
        );
    }
}

#[test]
fn the_description_holds_what_parses() {
    for method in ["describe", "capabilities"] {
        let Call::Answered(reply) = call_json(&info(), method) else {
            panic!("{method}")
        };
        assert_eq!(
            fields(&reply),
            r#"{"abiVersion":1,"config":null,"driverLinked":true,"engine":"milvus","manifest":{"id":"irodori.milvus"}}"#
        );
    }
}

#[test]
fn manifest_and_config_are_handed_out_as_they_are() {
    assert_eq!(
        call_json(&info(), "manifest"),
        Call::Answered(Reply::Raw(r#"{"id":"irodori.milvus"}"#.to_string()))
    );
    assert_eq!(
        call_json(&info(), "config"),
        Call::Answered(Reply::Raw("not json".to_string()))
    );
}

#[test]
fn other_methods_are_work_or_unknown() {
    assert_eq!(call_json(&info(), "connect"), Call::Connect);
    assert_eq!(call_json(&info(), "query"), Call::Query);
    assert_eq!(call_json(&info(), "metadata"), Call::Metadata);
    assert_eq!(call_json(&info(), "close"), Call::Close);
    assert_eq!(
        call_json(&info(), "Ping"),
        Call::Answered(error(
            "connector.unknownMethod",
            "unknown connector method: Ping"
        ))
    );
}

#[test]
fn exchanges_fail_in_their_own_words() {
    let said = |exchange| read_reply(exchange).unwrap_err();
    assert_eq!(said(Exchange::NotStarted("no".to_string())), "no");
    assert_eq!(
        said(Exchange::NotSent("refused".to_string())),
        "Milvus request failed: refused"
    );
    assert_eq!(
        said(Exchange::NotRead("cut off".to_string())),
        "Milvus response read failed: cut off"
    );
    assert_eq!(
        said(Exchange::Answered {
            status: 404,
            text: "gone".to_string()
        }),
        "Milvus returned HTTP 404 Not Found: gone"
    );
    assert_eq!(
        said(Exchange::Answered {
            status: 999,
            text: String::new()
        }),
        "Milvus returned HTTP 999 <unknown status code>: "
    );
    assert_eq!(
        said(answered("nope")),
        "Milvus JSON response parse failed: expected ident at line 1 column 2: nope"
    );
}

#[test]
fn every_status_of_success_is_one() {
    for status in [200, 204, 299] {
        let exchange = Exchange::Answered {
            status,
            text: "{}".to_string(),
        };
        assert!(read_reply(exchange).is_ok());
    }
    for status in [100, 199, 300, 500] {
        let exchange = Exchange::Answered {
            status,
            text: "{}".to_string(),
        };
        assert!(read_reply(exchange).is_err());
    }
}

#[test]
fn success_is_told_by_the_code() {
    for text in [
        r#"{"code":0}"#,
        r#"{"code":200}"#,
        r#"{"code":"1"}"#,
        r#"{"code":1.5}"#,
        r#"{"code":18446744073709551615}"#,
        "{}",
        "[]",
    ] {
        assert_eq!(print(&check_reply(json(text)).unwrap()), text);
    }
    let said = |text| check_reply(json(text)).unwrap_err();
    assert_eq!(said(r#"{"code":1,"message":"m","reason":"r"}"#), "m");
    assert_eq!(said(r#"{"code":-1,"reason":"r"}"#), "r");
    assert_eq!(
        said(r#"{"code":1,"message":2,"reason":"r"}"#),
        "Milvus API returned an error."
    );
    assert_eq!(said(r#"{"code":1}"#), "Milvus API returned an error.");
}

#[test]
fn collections_are_listed_in_three_shapes() {
    let names = |text: &str| collection_names(&json(text));
    assert_eq!(
        names(r#"{"data":["a",{"name":"b"},3,{"name":4},{}]}"#),
        ["a", "b"]
    );
    assert_eq!(
        names(r#"{"data":{"collectionNames":["a",{"name":"b"}],"collection_names":["c"]}}"#),
        ["a"]
    );
    assert_eq!(names(r#"{"data":{"collection_names":["c"]}}"#), ["c"]);
    assert!(names(r#"{"data":{"collectionNames":7,"collection_names":["c"]}}"#).is_empty());
    assert!(names(r#"{"data":"a"}"#).is_empty());
    assert!(names("{}").is_empty());
}

#[test]
fn collections_are_described_field_by_field() {
    let reply = json(
        r#"{"data":{"collectionName":"books","schema":{"fields":[
            {"name":"id","dataType":"Int64","isPrimary":true},
            {"type":{"k":[1,"v"]},"isPrimary":"yes"},
            5]},"fields":[{"name":"not this"}],"indexes":[{"i":1}]}}"#,
    );
    assert_eq!(
        print(&describe_collection("asked", &reply)),
        concat_lines(&[
            r#"{"columns":["#,
            r#"{"dataType":"\"Int64\"","name":"id","nullable":true,"ordinal":1,"primaryKey":true},"#,
            r#"{"dataType":"{\"k\":[1,\"v\"]}","name":"field","nullable":true,"ordinal":2,"primaryKey":false},"#,
            r#"{"dataType":"unknown","name":"field","nullable":true,"ordinal":3,"primaryKey":false}],"#,
            r#""foreignKeys":[],"indexes":[{"i":1}],"kind":"collection","name":"books","primaryKey":[],"schema":"default"}"#,
        ])
    );
}

fn concat_lines(lines: &[&str]) -> String {
    lines.concat()
}

#[test]
fn a_bare_description_is_filled_in() {
    assert_eq!(
        print(&describe_collection("asked", &json("{}"))),
        concat_lines(&[
            r#"{"columns":[],"foreignKeys":[],"indexes":[],"kind":"collection","#,
            r#""name":"asked","primaryKey":[],"schema":"default"}"#,
        ])
    );
    let flat = json(r#"{"data":{"fields":[{"name":"v","dataType":101}]}}"#);
    assert_eq!(
        print(describe_collection("c", &flat).get("columns").unwrap()),
        r#"[{"dataType":"101","name":"v","nullable":true,"ordinal":1,"primaryKey":false}]"#
    );
    let not_a_list = json(r#"{"data":{"schema":{"fields":1},"fields":[{}]}}"#);
    assert_eq!(
        print(describe_collection("c", &not_a_list).get("columns").unwrap()),
        "[]"
    );
}

#[test]
fn the_description_of_a_server_asks_about_every_collection() {
    let mut load = MetadataLoad::begin(answered(r#"{"data":["a","b"]}"#)).unwrap();
    let mut asked = Vec::new();
    while let Some(body) = load.next_body() {
        asked.push(print(&body));
        load = load.accept(answered("{}")).unwrap();
    }
    assert_eq!(
        asked,
        [r#"{"collectionName":"a"}"#, r#"{"collectionName":"b"}"#]
    );
    let document = load.finish();
    let schema = &document.get("schemas").unwrap().as_array().unwrap()[0];
    assert_eq!(schema.get("name").unwrap().as_str(), Some("default"));
    let objects = schema.get("objects").unwrap().as_array().unwrap();
    assert_eq!(objects.len(), 2);
    assert_eq!(objects[0].get("name").unwrap().as_str(), Some("a"));
    assert_eq!(objects[1].get("name").unwrap().as_str(), Some("b"));
}

#[test]
fn the_description_of_a_server_stops_at_a_failure() {
    assert_eq!(
        MetadataLoad::begin(Exchange::NotSent("x".to_string())).unwrap_err(),
        "Milvus request failed: x"
    );
    let load = MetadataLoad::begin(answered(r#"{"data":["a"]}"#)).unwrap();
    assert_eq!(
        load.accept(answered(r#"{"code":5,"message":"gone"}"#))
            .unwrap_err(),
        "gone"
    );
    let empty = MetadataLoad::begin(answered("{}")).unwrap();
    assert!(empty.next_body().is_none());
    assert_eq!(
        print(&empty.finish()),
        r#"{"schemas":[{"name":"default","objects":[]}]}"#
    );
}

#[test]
fn a_server_is_tried_out_by_counting_its_collections() {
    assert_eq!(probe(answered(r#"{"data":["a","b"]}"#)), Ok(2));
    assert_eq!(
        try_out(&config(), answered(r#"{"data":["a","b"]}"#)),
        Ok(2)
    );
    assert_eq!(
        try_out(
            &config(),
            Exchange::NotSent("no s3cret at http://db:19530/v2".to_string())
        ),
        Err(error(
            "connector.connectFailed",
            "Milvus request failed: no **** at <milvus-url>/v2"
        ))
    );
}

#[test]
fn a_client_that_cannot_be_had_is_an_invalid_request() {
    let options = RequestOptions {
        client_cert: Some("/c.pem".to_string()),
        ..RequestOptions::default()
    };
    let config = MilvusConfig::from_request(&options, Vec::new()).unwrap();
    assert_eq!(
        connect(config, no_files()).unwrap_err(),
        error(
            "connector.invalidRequest",
            "SSL client certificate needs a matching client key."
        )
    );

    // A PEM block that holds no certificate: there is a builder, and no client comes of it.
    let options = RequestOptions {
        root_cert: Some("/ca.pem".to_string()),
        ..RequestOptions::default()
    };
    let config = MilvusConfig::from_request(&options, vec!["builder".to_string()]).unwrap();
    let block = "-----BEGIN CERTIFICATE-----\nAAAA\n-----END CERTIFICATE-----\n";
    let files = PemFiles {
        root: Ok(block.as_bytes().to_vec()),
        ..no_files()
    };
    assert_eq!(
        connect(config, files).unwrap_err(),
        error(
            "connector.invalidRequest",
            "TLS client setup failed: **** error"
        )
    );
}

#[test]
fn connections_are_open_until_closed() {
    let mut connections = Connections::new();
    let reply = connected(&info(), &mut connections, "one".to_string(), made(), 2);
    assert_eq!(
        fields(&reply),
        r#"{"collectionCount":2,"connectionId":"one","driverLinked":true,"endpoint":"http://db:19530","engine":"milvus"}"#
    );
    assert_eq!(connections.connection("one").unwrap().config, config());
    assert_eq!(
        connections.connection("two").unwrap_err(),
        error(
            "connector.connectionNotFound",
            "no open connection: two"
        )
    );
    assert_eq!(
        fields(&close(&mut connections, "two")),
        r#"{"closed":false,"connectionId":"two"}"#
    );
    assert!(connections.connection("one").is_ok());
    assert_eq!(
        fields(&close(&mut connections, "one")),
        r#"{"closed":true,"connectionId":"one"}"#
    );
    assert!(connections.connection("one").is_err());
    assert_eq!(
        fields(&close(&mut connections, "one")),
        r#"{"closed":false,"connectionId":"one"}"#
    );
}

#[test]
fn a_connection_takes_the_place_of_another_with_its_id() {
    let mut connections: Connections<u8> = Connections::new();
    connections.insert("a".to_string(), 1);
    connections.insert("b".to_string(), 2);
    connections.insert("a".to_string(), 3);
    assert_eq!(connections.connection("a").ok(), Some(&3));
    assert_eq!(connections.connection("b").ok(), Some(&2));
    assert!(connections.remove("a"));
    assert!(connections.connection("a").is_err());
    assert!(!connections.remove("a"));
}

#[test]
fn the_first_field_with_a_query_counts() {
    let fields = |query: Option<&str>, sql: Option<&str>, statement: Option<&str>| QueryFields {
        query: query.map(str::to_string),
        sql: sql.map(str::to_string),
        statement: statement.map(str::to_string),
        collection: Some("d".to_string()),
    };
    let options = RequestOptions::default();
    let mut open = Connections::new();
    open.insert("one".to_string(), made());
    let asked = |fields: QueryFields| -> String {
        let (_, made) = query(Some(&open), "one", &fields, &options, 1).unwrap();
        made.body.get("collectionName").unwrap().as_str().unwrap().to_string()
    };
    assert_eq!(asked(fields(Some("a"), Some("b"), Some("c"))), "a");
    assert_eq!(asked(fields(None, Some("b"), Some("c"))), "b");
    assert_eq!(asked(fields(None, None, Some("c"))), "c");
    assert_eq!(asked(fields(None, None, None)), "d");
}

#[test]
fn a_request_without_a_query_is_invalid() {
    let nothing = QueryFields {
        query: None,
        sql: None,
        statement: None,
        collection: None,
    };
    assert_eq!(
        query(None, "one", &nothing, &RequestOptions::default(), 1).unwrap_err(),
        error(
            "connector.invalidRequest",
            "query requires a collection name or JSON Milvus query."
        )
    );
    let blank = QueryFields {
        query: Some(" ".to_string()),
        ..nothing
    };
    assert_eq!(
        query(None, "one", &blank, &RequestOptions::default(), 1).unwrap_err(),
        error(
            "connector.invalidRequest",
            "Milvus query needs collectionName."
        )
    );
}

#[test]
fn a_query_needs_an_open_connection() {
    let fields = QueryFields {
        query: Some("items".to_string()),
        sql: None,
        statement: None,
        collection: None,
    };
    let options = RequestOptions::default();
    let mut open = Connections::new();
    assert_eq!(
        query(Some(&open), "one", &fields, &options, 1).unwrap_err(),
        error(
            "connector.connectionNotFound",
            "no open connection: one"
        )
    );
    assert_eq!(
        query(None, "one", &fields, &options, 1).unwrap_err(),
        state_poisoned()
    );
    assert_eq!(connection(None, "one").unwrap_err(), state_poisoned());
    open.insert("one".to_string(), made());
    let (over, asked) = query(Some(&open), "one", &fields, &options, 1).unwrap();
    assert_eq!(over.config, config());
    assert_eq!(asked.cap, 1);
    assert_eq!(connection(Some(&open), "one").unwrap().config, config());
}

#[test]
fn a_query_is_answered_with_a_table() {
    let reply = query_reply(
        "one",
        &config(),
        1,
        answered(r#"{"code":0,"data":[{"b":1,"a":"x"},{"c":1}]}"#),
    );
    assert_eq!(
        fields(&reply),
        r#"{"columns":["a","b"],"connectionId":"one","rows":[["x",1]],"truncated":true}"#
    );
    assert_eq!(
        query_reply(
            "one",
            &config(),
            1,
            answered(r#"{"code":1,"message":"bad s3cret"}"#)
        ),
        error("connector.queryFailed", "bad ****")
    );
    let empty = table_fields("one", (Vec::new(), Vec::new(), false));
    assert_eq!(
        fields(&empty),
        r#"{"columns":[],"connectionId":"one","rows":[],"truncated":false}"#
    );
}

#[test]
fn a_description_is_answered_as_it_is() {
    let reply = metadata("one", &config(), Ok(json(r#"{"schemas":[]}"#)));
    assert_eq!(
        fields(&reply),
        r#"{"connectionId":"one","metadata":{"schemas":[]}}"#
    );
    assert_eq!(
        metadata("one", &config(), Err("s3cret".to_string())),
        error("connector.metadataFailed", "****")
    );
}

#[test]
fn a_poisoned_state_is_told() {
    assert_eq!(
        state_poisoned(),
        error(
            "connector.statePoisoned",
            "Connector connection state is poisoned."
        )
    );
}
