use js_x_ray::estree::location::{Position, SourceLocation};
use js_x_ray::json::{JsonNumber, JsonValue};
use js_x_ray::parser::{
    is_illegal_return, parse_with, program_body, utf16_length, JsSourceParser, LineTable, SourceKind,
    SourceParser, TsSourceParser,
};

fn text(s: &str) -> JsonValue {
    JsonValue::String(s.to_string(), None)
}

fn count(n: u64) -> JsonValue {
    JsonValue::Number(JsonNumber {
        js_text: n.to_string(),
        json_text: n.to_string(),
        truncated: n as i64,
        as_u64: Some(n),
    })
}

fn object(fields: Vec<(&str, JsonValue)>) -> JsonValue {
    JsonValue::Object(fields.into_iter().map(|(k, v)| (k.to_string(), v)).collect())
}

#[test]
fn javascript_module_parses_to_a_program() {
    let json = JsSourceParser.parse("const a = 1;").unwrap();
    assert!(json.contains("\"Program\""));
    assert!(json.contains("\"VariableDeclaration\""));
}

#[test]
fn top_level_return_falls_back_to_commonjs() {
    let module = parse_with("return 1;", SourceKind::Module, false);
    let message = module.err().unwrap().message;
    assert!(is_illegal_return(&message));
    assert!(JsSourceParser.parse("return 1;").is_ok());
}

#[test]
fn syntax_error_is_reported() {
    let error = JsSourceParser.parse("const = ;").err().unwrap();
    assert!(!error.message.is_empty());
    assert!(!is_illegal_return(&error.message));
}

#[test]
fn typescript_parses_type_annotations() {
    assert!(TsSourceParser.parse("let x: number = 1;").is_ok());
    assert!(JsSourceParser.parse("let x: number = 1;").is_err());
}

#[test]
fn file_extensions_of_parsers() {
    assert_eq!(JsSourceParser::file_extensions(), vec![".js", ".cjs", ".mjs", ".jsx"]);
    assert_eq!(TsSourceParser::file_extensions(), vec![".ts", ".mts", ".cts", ".tsx"]);
}

#[test]
fn illegal_return_recognised_in_any_case() {
    assert!(is_illegal_return("A 'RETURN' Statement can only be used within a function body."));
    assert!(is_illegal_return("Illegal return statement"));
    assert!(!is_illegal_return("Unexpected token"));
}

#[test]
fn line_table_positions() {
    let table = LineTable::new("ab\ncd");
    assert_eq!(table.position(0), (1, 0));
    assert_eq!(table.position(2), (1, 2));
    assert_eq!(table.position(3), (2, 0));
    assert_eq!(table.position(4), (2, 1));
    assert_eq!(table.position(100), (2, 2));
}

#[test]
fn line_table_counts_utf16_columns() {
    let table = LineTable::new("é😀x");
    assert_eq!(table.position(2), (1, 1));
    assert_eq!(table.position(6), (1, 3));
    assert_eq!(table.position(7), (1, 4));
    assert_eq!(table.position(1), (1, 1));
}

#[test]
fn utf16_length_counts_surrogate_pairs() {
    assert_eq!(utf16_length(""), 0);
    assert_eq!(utf16_length("abc"), 3);
    assert_eq!(utf16_length("a😀"), 3);
}

#[test]
fn program_body_injects_loc() {
    let statement = object(vec![
        ("type", text("ExpressionStatement")),
        ("start", count(3)),
        ("end", count(5)),
    ]);
    let program = object(vec![
        ("type", text("Program")),
        ("start", count(0)),
        ("end", count(5)),
        ("body", JsonValue::Array(vec![statement])),
    ]);
    let body = program_body(program, "ab\ncd");
    assert_eq!(body.len(), 1);
    let loc = body[0].get("loc").unwrap();
    match loc.get("start").unwrap().get("line").unwrap() {
        JsonValue::Number(n) => {
            assert_eq!(n.js_text, "2");
            assert_eq!(n.json_text, "2");
            assert_eq!(n.truncated, 2);
        },
        _ => panic!("line is a number"),
    }
    assert_eq!(
        SourceLocation::from_node(&body[0]),
        Some(SourceLocation {
            start: Position { line: 2, column: 0 },
            end: Position { line: 2, column: 2 },
        })
    );
}

#[test]
fn program_body_replaces_existing_loc_and_skips_non_nodes() {
    let statement = object(vec![
        ("type", text("ExpressionStatement")),
        ("loc", JsonValue::Null),
        ("start", count(0)),
        ("end", count(1)),
        ("expression", object(vec![("start", count(0)), ("end", count(1))])),
    ]);
    let program = object(vec![("body", JsonValue::Array(vec![statement]))]);
    let body = program_body(program, "x");
    match &body[0] {
        JsonValue::Object(fields) => {
            assert_eq!(fields.len(), 5);
            assert_eq!(fields[1].0, "loc");
            match &fields[4].1 {
                JsonValue::Object(inner) => assert_eq!(inner.len(), 2),
                _ => panic!("expression is an object"),
            }
        },
        _ => panic!("statement is an object"),
    }
    assert_eq!(
        SourceLocation::from_node(&body[0]),
        Some(SourceLocation {
            start: Position { line: 1, column: 0 },
            end: Position { line: 1, column: 1 },
        })
    );
}

#[test]
fn program_without_body_gives_no_statements() {
    assert!(program_body(object(vec![("type", text("Program"))]), "").is_empty());
    assert!(program_body(JsonValue::Null, "").is_empty());
}
