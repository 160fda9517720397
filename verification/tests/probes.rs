use js_x_ray::ast_analyser::{build_probes, is_eval_call_expr, optional_probe_names, OptionalWarnings};
use js_x_ray::estree::types::IdentifierLookup;
use js_x_ray::json::{JsonNumber, JsonValue};
use js_x_ray::node_counter::{noop, NodeCounter, NodeCounterOptions};
use js_x_ray::probe::{ProbeCtx, ProbeFlow, ProbeInfo, ProbeReturn, ProbeWalk, Sensitivity, WalkAction};
use js_x_ray::probes::data_exfiltration::{DataExfiltration, ExfiltrationEntryPoint};
use js_x_ray::probes::is_array_expression::IsArrayExpression;
use js_x_ray::probes::is_binary_expression::walk_binary_expression;
use js_x_ray::probes::is_fetch::IsFetch;
use js_x_ray::probes::is_literal::{is_node_builtin_module, IsLiteral, LiteralKind};
use js_x_ray::probes::is_literal_regex::IsLiteralRegex;
use js_x_ray::probes::is_random::IsRandom;
use js_x_ray::probes::is_regex_object::{is_regex_constructor, IsRegexObject};
use js_x_ray::probes::is_require::validate_node_require;
use js_x_ray::probes::is_sync_io::IsSyncIo;
use js_x_ray::probes::log_usage::LogUsage;
use js_x_ray::probes::{default_probes, optional_probe};

fn text(s: &str) -> JsonValue {
    JsonValue::String(s.to_string(), None)
}

fn number(n: u64) -> JsonValue {
    JsonValue::Number(JsonNumber {
        js_text: n.to_string(),
        json_text: n.to_string(),
        truncated: n as i64,
        as_u64: Some(n),
    })
}

fn object(fields: Vec<(&str, JsonValue)>) -> JsonValue {
    JsonValue::Object(fields.into_iter().map(|(k, v)| (k.to_string(), v)).collect())
}

fn node(ty: &str, fields: Vec<(&str, JsonValue)>) -> JsonValue {
    let mut all = vec![("type", text(ty))];
    all.extend(fields);
    object(all)
}

fn identifier(name: &str) -> JsonValue {
    node("Identifier", vec![("name", text(name))])
}

fn string_literal(value: &str) -> JsonValue {
    node("Literal", vec![("value", text(value))])
}

fn info(name: &str, types: Option<Vec<&str>>, break_on_match: bool, group: Option<&str>) -> ProbeInfo {
    ProbeInfo {
        name: name.to_string(),
        node_types: types.map(|t| t.into_iter().map(|s| s.to_string()).collect()),
        break_on_match,
        break_group: group.map(|g| g.to_string()),
    }
}

fn lookup(entries: &[(&str, &str)]) -> IdentifierLookup {
    IdentifierLookup { entries: entries.iter().map(|(k, v)| (k.to_string(), v.to_string())).collect() }
}

#[test]
fn default_probes_run_in_order() {
    let names: Vec<String> = default_probes().into_iter().map(|p| p.name).collect();
    assert_eq!(
        names,
        vec![
            "isFetch", "isRequire", "isESMExport", "isUnsafeCallee", "is-literal", "is-literal-regex",
            "is-regex-object", "isImportDeclaration", "isWeakCrypto", "unsafe-vm-context",
            "isBinaryExpression", "isArrayExpression", "isUnsafeCommand", "isSerializeEnv",
            "dataExfiltration", "sql-injection", "isMonkeyPatch", "isPrototypePollution",
        ]
    );
}

#[test]
fn optional_probes_by_name() {
    assert_eq!(optional_probe("synchronous-io").unwrap().name, "isSyncIO");
    assert_eq!(optional_probe("crypto.weak-bcrypt").unwrap().name, "isWeakBcrypt");
    assert!(optional_probe("unknown").is_none());
    assert_eq!(optional_probe_names().len(), 7);
}

#[test]
fn build_probes_with_prefix_and_skip() {
    let custom = vec![info("custom", None, false, None)];
    let probes = build_probes(custom, true, &OptionalWarnings::Names(vec!["crypto.*".to_string()]));
    let names: Vec<String> = probes.into_iter().map(|p| p.name).collect();
    assert_eq!(
        names,
        vec!["custom", "isWeakScrypt", "isUnsafePrehash", "isWeakBcrypt", "isPasswordShucking"]
    );
    assert_eq!(build_probes(vec![], true, &OptionalWarnings::Disabled).len(), 18);
    assert_eq!(build_probes(vec![], false, &OptionalWarnings::All).len(), 25);
    let named = build_probes(vec![], false, &OptionalWarnings::Names(vec!["log-usage".to_string(), "nope".to_string()]));
    assert_eq!(named.len(), 19);
    assert_eq!(named[18].name, "log-usage");
}

#[test]
fn probe_walk_follows_break_groups() {
    let probes = vec![
        info("a", Some(vec!["Literal"]), true, Some("g")),
        info("b", None, false, Some("g")),
        info("c", Some(vec![]), false, None),
    ];
    let mut walk = ProbeWalk::start("Literal");
    assert_eq!(walk.next_probe(&probes), Some(0));
    assert_eq!(walk.record(&probes, ProbeReturn::Matched), ProbeFlow::Next);
    assert_eq!(walk.next_probe(&probes), Some(2));
    assert_eq!(walk.record(&probes, ProbeReturn::Skip), ProbeFlow::Stop(WalkAction::Skip));

    let mut walk = ProbeWalk::start("Identifier");
    assert_eq!(walk.next_probe(&probes), Some(1));
    assert_eq!(walk.record(&probes, ProbeReturn::Break), ProbeFlow::Next);
    assert_eq!(walk.next_probe(&probes), Some(2));
    assert_eq!(walk.record(&probes, ProbeReturn::Continue), ProbeFlow::Next);
    assert_eq!(walk.next_probe(&probes), None);
    assert_eq!(walk.finished, Some(WalkAction::Proceed));

    let breaking = vec![info("x", None, true, None), info("y", None, false, None)];
    let mut walk = ProbeWalk::start("Literal");
    assert_eq!(walk.next_probe(&breaking), Some(0));
    assert_eq!(walk.record(&breaking, ProbeReturn::Matched), ProbeFlow::Stop(WalkAction::Proceed));
}

#[test]
fn regex_object_and_literal_regex() {
    let ctor = node(
        "NewExpression",
        vec![("callee", identifier("RegExp")), ("arguments", JsonValue::Array(vec![string_literal("(a+)+$")]))],
    );
    assert!(is_regex_constructor(&ctor));
    assert!(IsRegexObject.validate_node(&ctor));
    assert_eq!(IsRegexObject.regex_pattern(&ctor), Some("(a+)+$".to_string()));
    let literal_arg = node("Literal", vec![("regex", object(vec![("pattern", text("x*")), ("flags", text("g"))]))]);
    let ctor2 = node(
        "NewExpression",
        vec![("callee", identifier("RegExp")), ("arguments", JsonValue::Array(vec![literal_arg]))],
    );
    assert_eq!(IsRegexObject.regex_pattern(&ctor2), Some("x*".to_string()));
    let no_args = node("NewExpression", vec![("callee", identifier("RegExp")), ("arguments", JsonValue::Array(vec![]))]);
    assert!(!IsRegexObject.validate_node(&no_args));
    assert_eq!(IsRegexObject.regex_pattern(&no_args), None);
    let other = node("NewExpression", vec![("callee", identifier("Date"))]);
    assert!(!is_regex_constructor(&other));

    let regex_literal = node("Literal", vec![("regex", object(vec![("pattern", text("a|b"))]))]);
    assert!(IsLiteralRegex.validate_node(&regex_literal));
    assert_eq!(IsLiteralRegex.regex_pattern(&regex_literal), "a|b");
    assert!(!IsLiteralRegex.validate_node(&string_literal("a")));
}

#[test]
fn literal_kinds() {
    assert!(IsLiteral.validate_node(&string_literal("x")));
    assert!(!IsLiteral.validate_node(&node("Literal", vec![("value", number(1))])));
    assert!(is_node_builtin_module("fs"));
    assert!(is_node_builtin_module("stream/promises"));
    assert!(!is_node_builtin_module("express"));
    assert!(matches!(IsLiteral.literal_kind("6673", false), LiteralKind::BuiltinModule(ref m) if m == "fs"));
    assert!(matches!(IsLiteral.literal_kind("68656c6c6f", false), LiteralKind::Hex(ref m) if m == "hello"));
    assert!(matches!(IsLiteral.literal_kind("john@example.com", true), LiteralKind::Email));
    assert!(matches!(IsLiteral.literal_kind("john@example.com", false), LiteralKind::Other));
    assert!(matches!(IsLiteral.literal_kind(".john@example.com", true), LiteralKind::Other));
}

#[test]
fn node_counter_counts_properties() {
    let mut counter = NodeCounter::new("VariableDeclaration[kind]");
    assert_eq!(counter.node_type, "VariableDeclaration");
    assert_eq!(counter.name, "VariableDeclaration");
    assert_eq!(counter.lookup.as_deref(), Some("kind"));
    let decl = |kind: &str| node("VariableDeclaration", vec![("kind", text(kind))]);
    assert!(counter.walk(&decl("const"), true));
    assert!(counter.walk(&decl("let"), true));
    assert!(counter.walk(&decl("const"), true));
    assert!(!counter.walk(&decl("var"), false));
    assert!(!counter.walk(&node("FunctionDeclaration", vec![]), true));
    assert!(!counter.walk(&node("VariableDeclaration", vec![]), true));
    assert_eq!(counter.count(), 4);
    let props: Vec<(String, u32)> = counter.properties().iter().map(|(k, v)| (k.clone(), *v)).collect();
    assert_eq!(props, vec![("const".to_string(), 2), ("let".to_string(), 1)]);

    let mut plain = NodeCounter::with_options("MemberExpression", NodeCounterOptions { name: Some("members".to_string()) });
    assert_eq!(plain.name, "members");
    assert_eq!(plain.lookup, None);
    assert!(plain.walk(&node("MemberExpression", vec![]), noop(&JsonValue::Null)));
    assert_eq!(plain.count(), 1);

    let bad_lookup = NodeCounter::new("Property[a1]");
    assert_eq!(bad_lookup.node_type, "Property");
    assert_eq!(bad_lookup.lookup, None);
}

#[test]
fn data_exfiltration_collects_sensitive_names() {
    let mut probe = DataExfiltration::new();
    let literal = string_literal("cat ~/.ssh/id_rsa");
    assert!(probe.validate_node(&literal, Sensitivity::Conservative, None));
    assert_eq!(probe.entry_point, ExfiltrationEntryPoint::Literal);
    assert_eq!(probe.main(&literal, &IdentifierLookup::noop(), &vec![]), ProbeReturn::Matched);

    let inner = node("CallExpression", vec![("callee", identifier("info"))]);
    let call = node(
        "CallExpression",
        vec![("callee", identifier("send")), ("arguments", JsonValue::Array(vec![inner]))],
    );
    assert!(probe.validate_node(&call, Sensitivity::Conservative, Some("JSON.stringify")));
    assert_eq!(probe.entry_point, ExfiltrationEntryPoint::Default);
    let traced = lookup(&[("info", "os.userInfo")]);
    probe.main(&call, &traced, &vec!["os".to_string()]);
    probe.main(&call, &traced, &vec![]);
    probe.on_import(Sensitivity::Aggressive, "dns", None);
    probe.on_import(Sensitivity::Conservative, "os", None);
    let (value, locations) = probe.finalize().unwrap();
    assert_eq!(value, "cat ~/.ssh/id_rsa, os.userInfo, dns");
    assert_eq!(locations.len(), 3);
    assert!(DataExfiltration::new().finalize().is_none());
    assert!(!DataExfiltration::new().validate_node(&call, Sensitivity::Aggressive, Some("JSON.stringify")));
    assert!(!DataExfiltration::new().validate_node(&string_literal("~/docs"), Sensitivity::Conservative, None));
}

#[test]
fn small_validators() {
    assert!(IsFetch.validate_node(Some("fetch")));
    assert!(!IsFetch.validate_node(Some("fetcher")));
    assert_eq!(IsFetch.main().0, "fetch");
    assert!(IsRandom.validate_node(Some("Math.random")));
    assert!(!IsRandom.validate_node(None));
    let modules = vec!["fs".to_string()];
    assert!(IsSyncIo.validate_node(&modules, Some("fs.readFileSync")));
    assert!(!IsSyncIo.validate_node(&modules, Some("fs.readFile")));
    assert!(!IsSyncIo.validate_node(&vec!["path".to_string()], Some("fs.readFileSync")));
    let call = node("CallExpression", vec![("callee", identifier("readFileSync"))]);
    assert_eq!(IsSyncIo.main(&call), Some("readFileSync".to_string()));
    assert!(!LogUsage.validate_node(&call));
    assert_eq!(LogUsage.main(&call), ProbeReturn::Continue);
    let array = node(
        "ArrayExpression",
        vec![("elements", JsonValue::Array(vec![string_literal("a"), identifier("b"), string_literal("c")]))],
    );
    assert!(IsArrayExpression.validate_node(&array));
    assert_eq!(IsArrayExpression.literal_elements(&array), vec![0, 2]);
}

#[test]
fn require_under_another_name() {
    let call = node(
        "CallExpression",
        vec![("callee", identifier("r")), ("arguments", JsonValue::Array(vec![string_literal("http")]))],
    );
    assert_eq!(validate_node_require(&call, &lookup(&[("r", "require")])), Some("r".to_string()));
    assert_eq!(validate_node_require(&call, &lookup(&[("r", "other")])), None);
    assert_eq!(validate_node_require(&call, &IdentifierLookup::noop()), None);
}

#[test]
fn eval_call_is_recognised() {
    let eval_call = node("CallExpression", vec![("callee", identifier("eval")), ("arguments", JsonValue::Array(vec![]))]);
    assert!(is_eval_call_expr(&eval_call));
    assert!(!is_eval_call_expr(&node("CallExpression", vec![("callee", identifier("evil"))])));
}

#[test]
fn binary_expression_depth() {
    let leaf = |n: &str| identifier(n);
    let inner = node("BinaryExpression", vec![("left", leaf("a")), ("right", leaf("b"))]);
    let outer = node("BinaryExpression", vec![("left", inner), ("right", node("UnaryExpression", vec![]))]);
    assert_eq!(walk_binary_expression(&outer, 0), (1, true));
}

#[test]
fn probe_context_names_the_traced_call() {
    let call = node("CallExpression", vec![("callee", identifier("ev"))]);
    let ctx = ProbeCtx::for_node(&call, lookup(&[("ev", "eval")]));
    assert_eq!(ctx.traced_identifier, Some("ev".to_string()));
    let member = node(
        "CallExpression",
        vec![(
            "callee",
            node("MemberExpression", vec![("object", identifier("cp")), ("property", identifier("exec"))]),
        )],
    );
    let ctx = ProbeCtx::for_node(&member, lookup(&[("exec", "spawn")]));
    assert_eq!(ctx.traced_identifier, Some("cp.spawn".to_string()));
    let ctx = ProbeCtx::for_node(&identifier("eval"), lookup(&[]));
    assert_eq!(ctx.traced_identifier, None);
}
