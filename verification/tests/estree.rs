use js_x_ray::estree::functions::{array_expression_to_string, array_expression_to_string_with, get_member_expression_identifier};
use js_x_ray::estree::literal::js_string;
use js_x_ray::estree::types::IdentifierLookup;
use js_x_ray::json::{clone_json, JsonNumber, JsonValue};

fn text(s: &str) -> JsonValue {
    JsonValue::String(s.to_string(), None)
}

fn number(n: i64) -> JsonValue {
    JsonValue::Number(JsonNumber {
        js_text: n.to_string(),
        json_text: n.to_string(),
        truncated: n,
        as_u64: if n >= 0 { Some(n as u64) } else { None },
    })
}

fn node(ty: &str, fields: Vec<(&str, JsonValue)>) -> JsonValue {
    let mut all = vec![("type".to_string(), text(ty))];
    all.extend(fields.into_iter().map(|(k, v)| (k.to_string(), v)));
    JsonValue::Object(all)
}

fn literal(v: JsonValue) -> JsonValue {
    node("Literal", vec![("value", v)])
}

fn identifier(name: &str) -> JsonValue {
    node("Identifier", vec![("name", text(name))])
}

#[test]
fn array_of_char_codes_becomes_characters() {
    let array = node(
        "ArrayExpression",
        vec![(
            "elements",
            JsonValue::Array(vec![
                literal(number(104)),
                literal(number(105)),
                literal(text("")),
                JsonValue::Null,
                identifier("x"),
            ]),
        )],
    );
    let lookup = IdentifierLookup { entries: vec![("x".to_string(), "X".to_string())] };
    assert_eq!(array_expression_to_string(&array, &lookup), vec!["h", "i", "X"]);
    assert_eq!(array_expression_to_string_with(&array, &lookup, false), vec!["104", "105", "X"]);
    assert!(array_expression_to_string(&identifier("y"), &lookup).is_empty());
}

#[test]
fn member_expression_parts() {
    let member = node(
        "MemberExpression",
        vec![("object", identifier("process")), ("property", identifier("env")), ("computed", JsonValue::Bool(false))],
    );
    assert_eq!(get_member_expression_identifier(&member, &IdentifierLookup::noop()), vec!["process", "env"]);
}

#[test]
fn js_string_coercion() {
    assert_eq!(js_string(&JsonValue::Null), "null");
    assert_eq!(js_string(&JsonValue::Bool(true)), "true");
    assert_eq!(js_string(&number(42)), "42");
    assert_eq!(js_string(&text("s")), "s");
}

#[test]
fn clone_keeps_the_data() {
    let value = node("Literal", vec![("value", JsonValue::Array(vec![number(1), text("a")]))]);
    let copy = clone_json(&value);
    match copy {
        JsonValue::Object(fields) => {
            assert_eq!(fields.len(), 2);
            assert_eq!(fields[0].0, "type");
            match &fields[1].1 {
                JsonValue::Array(items) => assert_eq!(items.len(), 2),
                _ => panic!("array kept"),
            }
        },
        _ => panic!("object kept"),
    }
}
