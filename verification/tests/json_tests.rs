use pg_pipes::json::{parse_json, to_json_text, JsonValue};

fn obj(pairs: Vec<(&str, JsonValue)>) -> JsonValue {
    JsonValue::Obj(pairs.into_iter().map(|(k, v)| (k.to_string(), v)).collect())
}

#[test]
fn serialize_scalars() {
    assert_eq!(to_json_text(&JsonValue::Null), "null");
    assert_eq!(to_json_text(&JsonValue::Bool(true)), "true");
    assert_eq!(to_json_text(&JsonValue::Bool(false)), "false");
    assert_eq!(to_json_text(&JsonValue::Int(0)), "0");
    assert_eq!(to_json_text(&JsonValue::Int(-42)), "-42");
    assert_eq!(
        to_json_text(&JsonValue::Int(i64::MIN)),
        "-9223372036854775808"
    );
    assert_eq!(
        to_json_text(&JsonValue::Int(i64::MAX)),
        "9223372036854775807"
    );
    assert_eq!(to_json_text(&JsonValue::Num("1.5".to_string())), "1.5");
    assert_eq!(to_json_text(&JsonValue::Str("hi".to_string())), "\"hi\"");
}

#[test]
fn serialize_escapes() {
    let s = JsonValue::Str("a\"b\\c\nd\te\r".to_string());
    assert_eq!(to_json_text(&s), "\"a\\\"b\\\\c\\nd\\te\\r\"");
    let ctl = JsonValue::Str("\u{1}\u{8}\u{c}\u{1f}".to_string());
    assert_eq!(to_json_text(&ctl), "\"\\u0001\\b\\f\\u001f\"");
}

#[test]
fn serialize_nested() {
    let v = obj(vec![
        ("a", JsonValue::Int(1)),
        (
            "b",
            JsonValue::Arr(vec![JsonValue::Bool(true), JsonValue::Null]),
        ),
        ("c", obj(vec![])),
    ]);
    assert_eq!(to_json_text(&v), "{\"a\":1,\"b\":[true,null],\"c\":{}}");
    assert_eq!(to_json_text(&JsonValue::Arr(vec![])), "[]");
}

#[test]
fn parse_builds_structure() {
    let v = parse_json(" { \"a\" : [ 1 , 2.5 , \"x\" ] , \"b\" : null } ").expect("parses");
    let expected = obj(vec![
        (
            "a",
            JsonValue::Arr(vec![
                JsonValue::Int(1),
                JsonValue::Num("2.5".to_string()),
                JsonValue::Str("x".to_string()),
            ]),
        ),
        ("b", JsonValue::Null),
    ]);
    assert_eq!(v, expected);
    assert_eq!(to_json_text(&v), "{\"a\":[1,2.5,\"x\"],\"b\":null}");
}

#[test]
fn parse_rejects_bad_text() {
    assert!(parse_json("not json").is_none());
    assert!(parse_json("{\"a\":").is_none());
    assert!(parse_json("").is_none());
}

#[test]
fn parse_keeps_big_numbers_as_text() {
    let v = parse_json("[18446744073709551615,-7]").expect("parses");
    assert_eq!(
        v,
        JsonValue::Arr(vec![
            JsonValue::Num("18446744073709551615".to_string()),
            JsonValue::Int(-7),
        ])
    );
    assert_eq!(to_json_text(&v), "[18446744073709551615,-7]");
}

#[test]
fn parse_unescapes_strings() {
    let v = parse_json("\"a\\\"b\\nc\"").expect("parses");
    assert_eq!(v, JsonValue::Str("a\"b\nc".to_string()));
    assert_eq!(to_json_text(&v), "\"a\\\"b\\nc\"");
}
