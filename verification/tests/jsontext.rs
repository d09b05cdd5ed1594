use jamsession::json::JsonValue;
use jamsession::jsontext::{json_id_to_string, to_json_text};

fn s(v: &str) -> JsonValue {
    JsonValue::String(v.to_string())
}

fn to_serde(v: &JsonValue) -> serde_json::Value {
    match v {
        JsonValue::Null => serde_json::Value::Null,
        JsonValue::Bool(b) => serde_json::Value::Bool(*b),
        JsonValue::Number(n) => serde_json::from_str(n).unwrap(),
        JsonValue::String(s) => serde_json::Value::String(s.clone()),
        JsonValue::Array(a) => serde_json::Value::Array(a.iter().map(to_serde).collect()),
        JsonValue::Object(m) => {
            let mut map = serde_json::Map::new();
            for (k, v) in m {
                map.insert(k.clone(), to_serde(v));
            }
            serde_json::Value::Object(map)
        }
    }
}

#[test]
fn ids_as_text() {
    assert_eq!(json_id_to_string(&s("abc")), "abc");
    assert_eq!(json_id_to_string(&JsonValue::Number("42".to_string())), "42");
    assert_eq!(json_id_to_string(&JsonValue::Null), "null");
    assert_eq!(json_id_to_string(&JsonValue::Bool(true)), "true");
}

#[test]
fn compact_text_matches_serde_json() {
    let v = JsonValue::Object(vec![
        ("a".to_string(), JsonValue::Array(vec![
            JsonValue::Number("1".to_string()),
            JsonValue::Bool(false),
            JsonValue::Null,
        ])),
        ("b\"q".to_string(), s("line\nbreak\ttab\\slash \u{1} é")),
        ("c".to_string(), JsonValue::Object(Vec::new())),
        ("d".to_string(), JsonValue::Array(Vec::new())),
    ]);
    assert_eq!(to_json_text(&v), serde_json::to_string(&to_serde(&v)).unwrap());
    assert_eq!(
        to_json_text(&v),
        "{\"a\":[1,false,null],\"b\\\"q\":\"line\\nbreak\\ttab\\\\slash \\u0001 é\",\"c\":{},\"d\":[]}"
    );
}

#[test]
fn control_characters_are_escaped() {
    for c in 0u32..0x20 {
        let ch = char::from_u32(c).unwrap();
        let text = ch.to_string();
        assert_eq!(
            to_json_text(&s(&text)),
            serde_json::to_string(&text).unwrap(),
            "char {c}"
        );
    }
    assert_eq!(to_json_text(&s("\u{7f}/")), "\"\u{7f}/\"");
}
