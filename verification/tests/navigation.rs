use db_ingest::json::Json;
use db_ingest::paths::{detect_nested_json, extract_nested_json, PathKey};
use db_ingest::text::{quoted, u64_string};

fn num(n: u64) -> Json {
    Json::Num(serde_json::Number::from(n))
}

fn fields(pairs: Vec<(&str, Json)>) -> Vec<(String, Json)> {
    pairs.into_iter().map(|(k, v)| (k.to_string(), v)).collect()
}

#[test]
fn nested_keys_are_discovered_with_dotted_paths() {
    let obj = fields(vec![
        (
            "a",
            Json::Obj(fields(vec![
                ("b", num(1)),
                ("c", Json::Obj(fields(vec![("d", num(2))]))),
            ])),
        ),
        ("e", num(3)),
    ]);
    assert_eq!(detect_nested_json(&obj), vec!["a.b", "a.c.d", "e"]);
}

#[test]
fn an_empty_nested_object_counts_as_a_leaf() {
    let obj = fields(vec![("a", Json::Obj(Vec::new())), ("b", num(1))]);
    assert_eq!(detect_nested_json(&obj), vec!["a", "b"]);
}

#[test]
fn an_empty_object_has_no_keys() {
    assert_eq!(detect_nested_json(&Vec::new()), Vec::<String>::new());
}

#[test]
fn a_key_path_reaches_a_nested_value() {
    let value = Json::Obj(fields(vec![(
        "x",
        Json::Arr(vec![Json::Obj(fields(vec![("y", num(5))]))]),
    )]));
    let path = vec![
        PathKey::Field("x".to_string()),
        PathKey::Index(0),
        PathKey::Field("y".to_string()),
    ];
    assert_eq!(extract_nested_json(value, &path), Ok(num(5)));
}

#[test]
fn an_out_of_range_index_in_a_key_path_is_an_error() {
    let value = Json::Obj(fields(vec![(
        "x",
        Json::Arr(vec![Json::Obj(fields(vec![("y", num(5))]))]),
    )]));
    let path = vec![
        PathKey::Field("x".to_string()),
        PathKey::Index(5),
        PathKey::Field("y".to_string()),
    ];
    let err = extract_nested_json(value, &path).unwrap_err();
    assert!(err.starts_with("Error when getting key 5 from json "));
    assert!(err.contains("[{\"y\":5}]"));
}

#[test]
fn a_missing_field_in_a_key_path_names_the_key() {
    let value = Json::Obj(fields(vec![("a", num(1))]));
    let path = vec![PathKey::Field("b".to_string())];
    let err = extract_nested_json(value, &path).unwrap_err();
    assert_eq!(err, "Error when getting key b from json {\"a\":1}");
}

#[test]
fn decimal_rendering_matches_the_number() {
    assert_eq!(u64_string(0), "0");
    assert_eq!(u64_string(7), "7");
    assert_eq!(u64_string(1234), "1234");
    assert_eq!(u64_string(1000), "1000");
}

#[test]
fn quoting_wraps_and_escapes() {
    assert_eq!(quoted(""), "\"\"");
    assert_eq!(quoted("plain"), "\"plain\"");
    assert_eq!(quoted("a\"b\\c"), "\"a\\\"b\\\\c\"");
}

#[test]
fn error_messages_embed_the_rendered_response() {
    let r = db_ingest::extract::extract_result("{\"a\": [1, null, true, \"s\"]}", 0);
    let msg = r.unwrap_err().message();
    assert!(msg.contains("{\"a\":[1,null,true,\"s\"]}"));
}
