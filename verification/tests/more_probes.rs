use js_x_ray::estree::types::LiteralIdentifiers;
use js_x_ray::json::{JsonNumber, JsonValue};
use js_x_ray::probe::Sensitivity;
use js_x_ray::probes::crypto::is_weak_scrypt::{is_weak_scrypt_params, scrypt_warnings};
use js_x_ray::probes::is_unsafe_command::{is_unsafe_command, unsafe_command_warning, validate_node as command_method};
use js_x_ray::probes::sql_injection::validate_node as sql_injection;

fn text(s: &str) -> JsonValue {
    JsonValue::String(s.to_string(), None)
}

fn number(n: i64) -> JsonValue {
    JsonValue::Number(JsonNumber {
        js_text: n.to_string(),
        json_text: n.to_string(),
        truncated: n,
        as_u64: if n >= 0 { Some(n as u64) } else { None },
    })
}

fn node(ty: &str, fields: Vec<(&str, JsonValue)>) -> JsonValue {
    let mut all = vec![("type".to_string(), text(ty))];
    all.extend(fields.into_iter().map(|(k, v)| (k.to_string(), v)));
    JsonValue::Object(all)
}

fn literal(value: &str) -> JsonValue {
    node("Literal", vec![("value", text(value))])
}

fn identifier(name: &str) -> JsonValue {
    node("Identifier", vec![("name", text(name))])
}

fn call(args: Vec<JsonValue>) -> JsonValue {
    node("CallExpression", vec![("callee", identifier("f")), ("arguments", JsonValue::Array(args))])
}

fn quasi(raw: &str, tail: bool) -> JsonValue {
    node(
        "TemplateElement",
        vec![("value", JsonValue::Object(vec![("raw".to_string(), text(raw))])), ("tail", JsonValue::Bool(tail))],
    )
}

#[test]
fn unsafe_commands() {
    assert!(is_unsafe_command("curl http://x"));
    assert!(is_unsafe_command("/usr/bin/uname -a"));
    assert!(!is_unsafe_command("ls"));
    assert_eq!(command_method(Some("child_process.spawn")), Some("spawn".to_string()));
    assert_eq!(command_method(Some("child_process.execSync")), Some("execSync".to_string()));
    assert_eq!(command_method(Some("child_process.fork")), None);
    assert_eq!(command_method(None), None);

    let spawn = call(vec![
        literal("ping"),
        node("ArrayExpression", vec![("elements", JsonValue::Array(vec![literal("-c"), identifier("n"), literal("1")]))]),
    ]);
    assert_eq!(unsafe_command_warning(&spawn, "spawn", Sensitivity::Conservative), Some("ping -c 1".to_string()));
    assert_eq!(unsafe_command_warning(&spawn, "exec", Sensitivity::Conservative), Some("ping".to_string()));
    let ls = call(vec![literal("ls")]);
    assert_eq!(unsafe_command_warning(&ls, "exec", Sensitivity::Conservative), None);
    assert_eq!(unsafe_command_warning(&ls, "exec", Sensitivity::Aggressive), Some("ls".to_string()));
    assert_eq!(unsafe_command_warning(&call(vec![identifier("cmd")]), "exec", Sensitivity::Aggressive), None);
}

#[test]
fn sql_in_template_literals() {
    let template = node(
        "TemplateLiteral",
        vec![
            ("expressions", JsonValue::Array(vec![identifier("id")])),
            ("quasis", JsonValue::Array(vec![quasi("SELECT * FROM users WHERE id = ", false), quasi("", true)])),
        ],
    );
    let none = LiteralIdentifiers { entries: vec![] };
    assert_eq!(
        sql_injection(&call(vec![template]), &none),
        Some("SELECT * FROM users WHERE id = ${0}".to_string())
    );
    let plain = node(
        "TemplateLiteral",
        vec![("expressions", JsonValue::Array(vec![])), ("quasis", JsonValue::Array(vec![quasi("SELECT a FROM b", true)]))],
    );
    assert_eq!(sql_injection(&call(vec![plain]), &none), None);
    let known = LiteralIdentifiers {
        entries: vec![("q".to_string(), "TemplateLiteral".to_string(), "delete from t where x".to_string())],
    };
    assert_eq!(sql_injection(&call(vec![identifier("q")]), &known), Some("delete from t where x".to_string()));
    let string_typed = LiteralIdentifiers {
        entries: vec![("q".to_string(), "Literal".to_string(), "delete from t".to_string())],
    };
    assert_eq!(sql_injection(&call(vec![identifier("q")]), &string_typed), None);
}

#[test]
fn scrypt_parameters() {
    assert!(is_weak_scrypt_params(16384, 8, 1));
    assert!(!is_weak_scrypt_params(131072, 8, 1));
    assert!(!is_weak_scrypt_params(8192, 8, 10));
    assert!(is_weak_scrypt_params(8192, 8, 9));
    assert!(is_weak_scrypt_params(4096, 8, 100));
    assert!(is_weak_scrypt_params(131072, 4, 1));
}

#[test]
fn scrypt_call_warnings() {
    let property = |key: &str, value: i64| {
        node("Property", vec![("key", identifier(key)), ("value", node("Literal", vec![("value", number(value))]))])
    };
    let options = node("ObjectExpression", vec![("properties", JsonValue::Array(vec![property("N", 1024)]))]);
    let weak = call(vec![identifier("pw"), literal("salt"), number(64), options]);
    assert_eq!(scrypt_warnings(&weak), vec!["low-cost".to_string(), "short-salt".to_string()]);
    let strong_options = node(
        "ObjectExpression",
        vec![("properties", JsonValue::Array(vec![property("cost", 131072), property("p", 1)]))],
    );
    let strong = call(vec![identifier("pw"), literal("0123456789abcdef"), number(64), strong_options]);
    assert_eq!(scrypt_warnings(&strong), vec!["hardcoded-salt".to_string()]);
    assert!(scrypt_warnings(&call(vec![identifier("pw"), identifier("salt")])).is_empty());
}
