use db_ingest::extract::{extract_result, extract_result_from_json, DbError, ShapeKind};
use db_ingest::json::Json;
use db_ingest::paths::{extract_nested_json, PathKey};

fn num(n: u64) -> Json {
    Json::Num(serde_json::Number::from(n))
}

fn envelope() -> Json {
    Json::Arr(vec![Json::Obj(vec![(
        "result".to_string(),
        Json::Arr(vec![Json::Num(serde_json::Number::from(9u64))]),
    )])])
}

fn obj(fields: Vec<(&str, Json)>) -> Json {
    Json::Obj(fields.into_iter().map(|(k, v)| (k.to_string(), v)).collect())
}

#[test]
fn extracts_result_rows_at_index_zero() {
    let r = extract_result("[{\"result\":[{\"a\":1}]}]", 0);
    assert_eq!(r, Ok(vec![obj(vec![("a", num(1))])]));
}

#[test]
fn extracts_result_rows_at_later_index() {
    let r = extract_result("[{\"result\":[]},{\"result\":[{\"b\":2},{\"c\":3}]}]", 1);
    assert_eq!(r, Ok(vec![obj(vec![("b", num(2))]), obj(vec![("c", num(3))])]));
}

#[test]
fn top_level_not_an_array_is_reported() {
    let r = extract_result("{\"not\":\"an array\"}", 0);
    match r {
        Err(e @ DbError::UnexpectedShape(ShapeKind::NotArray, _)) => {
            assert!(e.message().contains("not an array"));
            assert!(e.message().contains("{\"not\":\"an array\"}"));
        }
        other => panic!("expected a top-level shape error, got {:?}", other),
    }
}

#[test]
fn missing_result_key_is_reported() {
    let r = extract_result("[{}]", 0);
    match r {
        Err(e @ DbError::UnexpectedShape(ShapeKind::MissingResultKey, _)) => {
            assert!(e.message().contains("result"));
        }
        other => panic!("expected a missing-key error, got {:?}", other),
    }
}

#[test]
fn index_out_of_range_is_reported() {
    let r = extract_result("[]", 0);
    assert!(matches!(
        r,
        Err(DbError::UnexpectedShape(ShapeKind::IndexOutOfRange, _))
    ));
}

#[test]
fn result_that_is_not_an_array_is_reported() {
    let r = extract_result("[{\"result\":5}]", 0);
    match r {
        Err(e @ DbError::UnexpectedShape(ShapeKind::ResultNotArray, _)) => {
            assert!(e.message().contains("'result' is not an array"));
        }
        other => panic!("expected a result-shape error, got {:?}", other),
    }
}

#[test]
fn invalid_json_is_reported_with_the_parser_message() {
    let r = extract_result("not json at all", 0);
    match r {
        Err(e @ DbError::InvalidJson(_)) => {
            assert!(e.message().starts_with("DB returned invalid JSON: "));
        }
        other => panic!("expected an invalid-json error, got {:?}", other),
    }
}

#[test]
fn extraction_from_a_parsed_value_matches_the_text_path() {
    let parsed = Json::Arr(vec![obj(vec![("result", Json::Arr(vec![num(7)]))])]);
    let r = extract_result_from_json(parsed, 0);
    assert_eq!(r, Ok(vec![num(7)]));
}

#[test]
fn first_result_field_wins_in_an_object() {
    let parsed = Json::Arr(vec![Json::Obj(vec![
        ("other".to_string(), Json::Null),
        ("result".to_string(), Json::Arr(vec![num(1)])),
        ("result".to_string(), Json::Arr(vec![num(2)])),
    ])]);
    let r = extract_result_from_json(parsed, 0);
    assert_eq!(r, Ok(vec![num(1)]));
}

#[test]
fn the_generic_key_path_walk_agrees_with_the_typed_extraction() {
    let rows = extract_result_from_json(envelope(), 0).unwrap();
    let path = vec![PathKey::Index(0), PathKey::Field("result".to_string())];
    let walked = extract_nested_json(envelope(), &path).unwrap();
    assert_eq!(walked, Json::Arr(rows));
}
