use milvus_connector::json::Json;
use milvus_connector::options::RequestOptions;
use milvus_connector::query::MilvusQuery;
use milvus_connector::rows::{query_output, reply_rows, rows_to_output};
use milvus_connector::value::{parse, print};

fn json(text: &str) -> Json {
    parse(text).unwrap()
}

fn collection(name: &str) -> RequestOptions {
    RequestOptions {
        collection: Some(name.to_string()),
        ..RequestOptions::default()
    }
}

/// The columns of a table, its rows as JSON text, and whether rows were left out.
fn table(text: &str, cap: usize) -> (Vec<String>, Vec<String>, bool) {
    let (columns, rows, truncated) = query_output(json(text), cap);
    let rows = rows
        .into_iter()
        .map(|row| print(&Json::Array(row)))
        .collect();
    (columns, rows, truncated)
}

#[test]
fn parses_collection_query() {
    let request = RequestOptions::default();
    let query = MilvusQuery::from_input("items", &request, 10).unwrap();
    assert_eq!(query.endpoint, "/v2/vectordb/entities/query");
    assert_eq!(
        query.body.get("collectionName").unwrap().as_str(),
        Some("items")
    );
}

#[test]
fn a_collection_name_becomes_a_whole_query() {
    let query = MilvusQuery::from_input("  items\n", &collection("other"), 10).unwrap();
    assert_eq!(
        print(&query.body),
        r#"{"collectionName":"items","filter":"","limit":10,"outputFields":["*"]}"#
    );
    assert_eq!(query.cap, 10);
}

#[test]
fn what_was_written_is_kept() {
    let input = r#" {"collectionName":"c","filter":"a > 1","limit":3,"outputFields":["a"],"x":null}"#;
    let query = MilvusQuery::from_input(input, &RequestOptions::default(), 10).unwrap();
    assert_eq!(query.endpoint, "/v2/vectordb/entities/query");
    assert_eq!(
        print(&query.body),
        r#"{"collectionName":"c","filter":"a > 1","limit":3,"outputFields":["a"],"x":null}"#
    );
}

#[test]
fn a_vector_makes_a_search() {
    let input = r#"{"collectionName":"c","vector":[0.5,1]}"#;
    let query = MilvusQuery::from_input(input, &RequestOptions::default(), 7).unwrap();
    assert_eq!(query.endpoint, "/v2/vectordb/entities/search");
    assert_eq!(
        print(&query.body),
        r#"{"collectionName":"c","data":[[0.5,1]],"limit":7,"vector":[0.5,1]}"#
    );
}

#[test]
fn data_makes_a_search_as_it_is() {
    let input = r#"{"collectionName":"c","data":[[1]],"vector":[2],"limit":null}"#;
    let query = MilvusQuery::from_input(input, &RequestOptions::default(), 7).unwrap();
    assert_eq!(query.endpoint, "/v2/vectordb/entities/search");
    assert_eq!(
        print(&query.body),
        r#"{"collectionName":"c","data":[[1]],"limit":null,"vector":[2]}"#
    );
}

#[test]
fn the_request_names_the_collection_where_the_query_does_not() {
    let query = MilvusQuery::from_input("{}", &collection("fallback"), 1).unwrap();
    assert_eq!(
        query.body.get("collectionName").unwrap().as_str(),
        Some("fallback")
    );
    let named = r#"{"collectionName":"own"}"#;
    let query = MilvusQuery::from_input(named, &collection("fallback"), 1).unwrap();
    assert_eq!(
        query.body.get("collectionName").unwrap().as_str(),
        Some("own")
    );
}

#[test]
fn a_query_needs_a_collection() {
    let none = RequestOptions::default();
    for input in [
        "",
        "  ",
        "{}",
        r#"{"collectionName":""}"#,
        r#"{"collectionName":3}"#,
    ] {
        assert_eq!(
            MilvusQuery::from_input(input, &none, 1).unwrap_err(),
            "Milvus query needs collectionName."
        );
    }
    let not_a_name = r#"{"collectionName":null}"#;
    assert!(MilvusQuery::from_input(not_a_name, &collection("c"), 1).is_err());
}

#[test]
fn broken_json_is_not_a_query() {
    assert_eq!(
        MilvusQuery::from_input("{", &RequestOptions::default(), 1).unwrap_err(),
        "invalid Milvus query JSON: EOF while parsing an object at line 1 column 1"
    );
}

#[test]
fn a_ready_query_stays_as_it_is() {
    for input in [
        r#"{"collectionName":"c","vector":[1]}"#,
        r#"{"collectionName":"c"}"#,
    ] {
        let first = MilvusQuery::from_input(input, &RequestOptions::default(), 5).unwrap();
        let again =
            MilvusQuery::from_value(first.body.copy(), &collection("other"), 9).unwrap();
        assert_eq!(print(&again.body), print(&first.body));
        assert_eq!(again.endpoint, first.endpoint);
    }
}

#[test]
fn rows_share_their_columns() {
    let (columns, rows, truncated) =
        table(r#"{"data":[{"b":1,"a":2},{"c":[],"a":3},{}]}"#, 10);
    assert_eq!(columns, ["a", "b", "c"]);
    assert_eq!(rows, ["[2,1,null]", "[3,null,[]]", "[null,null,null]"]);
    assert!(!truncated);
}

#[test]
fn columns_stand_where_they_first_appear() {
    let (columns, rows, _) = table(r#"{"data":[{"z":1},{"a":2,"z":3}]}"#, 10);
    assert_eq!(columns, ["z", "a"]);
    assert_eq!(rows, ["[1,null]", "[3,2]"]);
}

#[test]
fn rows_without_keys_make_one_column() {
    assert_eq!(
        table(r#"{"data":[1,"x",null]}"#, 10),
        (
            vec!["value".to_string()],
            vec!["[1]".to_string(), r#"["x"]"#.to_string(), "[null]".to_string()],
            false
        )
    );
    assert_eq!(
        table(r#"{"data":[{}]}"#, 10),
        (vec!["value".to_string()], vec!["[]".to_string()], false)
    );
    assert_eq!(table(r#"{"data":[]}"#, 10), (vec![], vec![], false));
}

#[test]
fn a_value_among_objects_is_a_row_of_one_cell() {
    let (columns, rows, _) = table(r#"{"data":[{"a":1,"b":2},7]}"#, 10);
    assert_eq!(columns, ["a", "b"]);
    assert_eq!(rows, ["[1,2]", "[7]"]);
}

#[test]
fn no_more_rows_are_shown_than_wanted() {
    let text = r#"{"data":[{"a":1},{"b":2},{"c":3}]}"#;
    let (columns, rows, truncated) = table(text, 2);
    assert_eq!(columns, ["a", "b"]);
    assert_eq!(rows, ["[1,null]", "[null,2]"]);
    assert!(truncated);
    assert!(!table(text, 3).2);
    assert_eq!(table(text, 0), (vec![], vec![], true));
}

#[test]
fn rows_are_found_in_three_places() {
    let rows = |text: &str| -> Vec<String> {
        reply_rows(json(text)).iter().map(print).collect()
    };
    assert_eq!(rows(r#"{"data":[1,2]}"#), ["1", "2"]);
    assert_eq!(rows(r#"{"data":{"data":[1],"results":[2]}}"#), ["1"]);
    assert_eq!(rows(r#"{"data":{"results":[2]}}"#), ["2"]);
    assert_eq!(
        rows(r#"{"data":{"data":3,"results":[2]}}"#),
        [r#"{"data":3,"results":[2]}"#]
    );
    assert_eq!(rows(r#"{"data":{"count":3}}"#), [r#"{"count":3}"#]);
    assert_eq!(rows(r#"{"data":"x"}"#), [r#""x""#]);
    assert_eq!(rows(r#"{"code":0}"#), ["null"]);
    assert_eq!(rows("[1]"), ["null"]);
}

#[test]
fn rows_keep_the_order_of_their_entries() {
    let row = Json::object()
        .with("b", Json::natural(1))
        .with("a", Json::natural(2));
    let (columns, rows, truncated) = rows_to_output(vec![row], true);
    assert_eq!(columns, ["b", "a"]);
    assert_eq!(rows, [[Json::natural(1), Json::natural(2)]]);
    assert!(truncated);
}
