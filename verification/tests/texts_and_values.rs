use milvus_connector::json::Json;
use milvus_connector::text::{
    characters, replace, same_text, starts_with, trim, trim_end_matches, white_space,
};
use milvus_connector::value::{from_value, parse, print, to_value};

#[test]
fn white_space_is_that_of_unicode() {
    for c in '\0'..=char::MAX {
        assert_eq!(white_space(c), c.is_whitespace(), "{c:?}");
    }
}

#[test]
fn texts_are_trimmed() {
    for text in ["", " ", "a", " a", "a\u{3000}", "\t a b \n", "\u{2028}\u{e9} x\u{85}"] {
        assert_eq!(trim(text), text.trim());
    }
    for text in ["", "/", "a", "a/", "/a//", "\u{e9}/"] {
        assert_eq!(trim_end_matches(text, '/'), text.trim_end_matches('/'));
    }
}

#[test]
fn texts_are_replaced() {
    for text in ["", "a", "aaa", "abab", "xaby", "\u{e9}ab\u{e9}"] {
        for from in ["", "a", "aa", "ab", "aba", "\u{e9}"] {
            for to in ["", "-", "ab"] {
                assert_eq!(replace(text, from, to), text.replace(from, to));
            }
        }
    }
}

#[test]
fn texts_are_compared() {
    assert!(same_text("\u{e9}", "\u{e9}"));
    assert!(!same_text("a", "A"));
    assert!(!same_text("a", "ab"));
    assert!(starts_with("{}", '{'));
    assert!(!starts_with("", '{'));
    assert!(!starts_with(" {", '{'));
    assert_eq!(characters("a\u{e9}"), ['a', '\u{e9}']);
}

#[test]
fn json_text_is_read_and_written() {
    for text in [
        "null",
        "true",
        "18446744073709551615",
        "-9223372036854775808",
        "1.5",
        "-0.0",
        r#""a\n\"""#,
        "[]",
        r#"[1,[null],{"a":[]}]"#,
        r#"{"a":{"b":1},"c":2}"#,
    ] {
        assert_eq!(print(&parse(text).unwrap()), text);
    }
    assert_eq!(
        print(&parse(r#"{"b":1,"a":2,"b":3}"#).unwrap()),
        r#"{"a":2,"b":3}"#
    );
    assert_eq!(
        parse("[1,").unwrap_err(),
        "EOF while parsing a value at line 1 column 3"
    );
}

#[test]
fn values_go_over_and_back() {
    let value: serde_json::Value =
        serde_json::from_str(r#"{"a":[1,-2,0.5,"x",null,true],"b":{}}"#).unwrap();
    assert_eq!(to_value(&from_value(value.clone())), value);
}

#[test]
fn objects_hold_their_entries_in_the_order_of_the_keys() {
    let Json::Object(entries) = parse(r#"{"b":1,"é":2,"B":3,"a":4,"":5}"#).unwrap() else {
        panic!()
    };
    let keys: Vec<&str> = entries.iter().map(|entry| entry.0.as_str()).collect();
    assert_eq!(keys, ["", "B", "a", "b", "\u{e9}"]);
}

#[test]
fn of_two_entries_with_one_key_the_later_counts() {
    let value = Json::Object(vec![
        ("a".to_string(), Json::natural(1)),
        ("b".to_string(), Json::natural(2)),
        ("a".to_string(), Json::natural(3)),
    ]);
    assert_eq!(value.get("a"), Some(&Json::natural(3)));
    assert_eq!(print(&value), r#"{"a":3,"b":2}"#);
    assert_eq!(print(&value.copy()), r#"{"a":3,"b":2}"#);
    let set = value.with("a", Json::Null).with("c", Json::Bool(true));
    assert_eq!(print(&set), r#"{"a":null,"b":2,"c":true}"#);
    assert_eq!(set.take("b"), Some(Json::natural(2)));
}

#[test]
fn values_are_what_they_are() {
    let value = parse(r#"{"n":-3,"u":18446744073709551615,"f":1.0,"s":"x","t":true,"l":[1]}"#)
        .unwrap();
    assert_eq!(value.get("n").unwrap().as_i64(), Some(-3));
    assert_eq!(value.get("u").unwrap().as_i64(), None);
    assert_eq!(value.get("f").unwrap().as_i64(), None);
    assert_eq!(value.get("s").unwrap().as_str(), Some("x"));
    assert_eq!(value.get("t").unwrap().as_bool(), Some(true));
    assert_eq!(value.get("l").unwrap().as_array().unwrap().len(), 1);
    assert_eq!(value.get("x"), None);
    assert_eq!(value.get("s").unwrap().get("x"), None);
    assert_eq!(value.as_str(), None);
    assert_eq!(value.as_bool(), None);
    assert_eq!(value.as_i64(), None);
    assert_eq!(Json::natural(9223372036854775807).as_i64(), Some(i64::MAX));
    assert_eq!(print(&Json::string("\u{e9}")), "\"\u{e9}\"");
    assert_eq!(print(&Json::Null.with("a", Json::Null)), "null");
    assert_eq!(Json::Null.take("a"), None);
}
