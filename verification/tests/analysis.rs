use js_x_ray::pipelines::{Deobfuscate, Inline, Pipeline, PipelineRunner};
use indexmap::IndexSet;
use js_x_ray::analyse_options::analyse_options;
use js_x_ray::ast_analyser::{
    build_probes, runnable_probes, AstAnalyser, AstAnalyserOptions, analyse_file_parser, is_declaration_file, is_minified_path, mark_minified, mark_oneline_require,
    OptionalWarnings,
};
use js_x_ray::collectable_set::DefaultCollectableSet;
use js_x_ray::entry_files_analyser::FileParser;
use js_x_ray::estree::types::IdentifierLookup;
use js_x_ray::json::JsonValue;
use js_x_ray::probe::Sensitivity;

fn text(s: &str) -> JsonValue {
    JsonValue::String(s.to_string(), None)
}

fn object(fields: Vec<(&str, JsonValue)>) -> JsonValue {
    JsonValue::Object(fields.into_iter().map(|(k, v)| (k.to_string(), v)).collect())
}

#[test]
fn options_default_for_null() {
    let options = analyse_options(&JsonValue::Null);
    assert!(matches!(options.optional_warnings, OptionalWarnings::Disabled));
    assert_eq!(options.sensitivity, Sensitivity::Conservative);
    assert!(!options.remove_html_comments);
    assert!(!options.is_minified);
    assert_eq!(options.package_name, None);
}

#[test]
fn options_read_from_the_object() {
    let options = analyse_options(&object(vec![
        ("optionalWarnings", JsonValue::Array(vec![text("log-usage"), JsonValue::Bool(true), text("crypto.*")])),
        ("sensitivity", text("aggressive")),
        ("removeHTMLComments", JsonValue::Bool(true)),
        ("isMinified", text("yes")),
        ("packageName", text("pkg")),
    ]));
    match options.optional_warnings {
        OptionalWarnings::Names(names) => assert_eq!(names, vec!["log-usage".to_string(), "crypto.*".to_string()]),
        _ => panic!("names expected"),
    }
    assert_eq!(options.sensitivity, Sensitivity::Aggressive);
    assert!(options.remove_html_comments);
    assert!(!options.is_minified);
    assert_eq!(options.package_name.as_deref(), Some("pkg"));
    let all = analyse_options(&object(vec![("optionalWarnings", JsonValue::Bool(true)), ("sensitivity", text("loud"))]));
    assert!(matches!(all.optional_warnings, OptionalWarnings::All));
    assert_eq!(all.sensitivity, Sensitivity::Conservative);
}

#[test]
fn file_decisions() {
    assert!(is_declaration_file("types/index.d.ts"));
    assert!(!is_declaration_file("src/index.ts"));
    assert!(is_minified_path("dist/app.min.js"));
    assert!(!is_minified_path("dist/app.js"));
    assert_eq!(analyse_file_parser(Some("ts")), Some(FileParser::TypeScript));
    assert_eq!(analyse_file_parser(Some("mts")), None);
    assert_eq!(analyse_file_parser(None), None);
}

#[test]
fn minified_flag_unless_oneline_require() {
    let mut flags: IndexSet<String> = IndexSet::new();
    mark_minified(&mut flags, true);
    assert!(flags.contains("is-minified"));
    let mut oneline: IndexSet<String> = IndexSet::new();
    mark_oneline_require(&mut oneline, true);
    mark_minified(&mut oneline, true);
    assert!(oneline.contains("oneline-require"));
    assert!(!oneline.contains("is-minified"));
    let mut plain: IndexSet<String> = IndexSet::new();
    mark_oneline_require(&mut plain, false);
    mark_minified(&mut plain, false);
    assert!(plain.is_empty());
}

#[test]
fn pipeline_runner_keeps_one_pipeline_per_name() {
    let pipelines: Vec<Box<dyn Pipeline>> = vec![Box::new(Inline), Box::new(Deobfuscate), Box::new(Inline)];
    let mut runner = PipelineRunner::new(pipelines);
    let names: Vec<String> = runner.pipelines.iter().map(|p| p.name()).collect();
    assert_eq!(names, vec!["inline".to_string(), "deobfuscate".to_string()]);
    let out = runner.reduce(vec![text("a"), text("b")]);
    let strings: Vec<String> = out
        .iter()
        .map(|v| match v {
            JsonValue::String(s, _) => s.clone(),
            _ => panic!("not a string"),
        })
        .collect();
    assert_eq!(strings, vec!["a".to_string(), "b".to_string()]);
}

#[test]
fn analyser_probes_and_collectables() {
    let analyser = AstAnalyser::default();
    let names: Vec<String> = analyser.probes().iter().map(|p| p.name.clone()).collect();
    let defaults: Vec<String> = build_probes(Vec::new(), false, &OptionalWarnings::Disabled)
        .iter()
        .map(|p| p.name.clone())
        .collect();
    assert_eq!(names, defaults);
    assert!(analyser.get_collectable_set("url").is_none());

    let mut setup = AstAnalyserOptions::default();
    setup.optional_warnings = OptionalWarnings::Names(vec!["log-usage".to_string()]);
    setup.collectables.push(DefaultCollectableSet::new("url"));
    let analyser = AstAnalyser::new(setup);
    let names: Vec<String> = analyser.probes().iter().map(|p| p.name.clone()).collect();
    assert_eq!(names.len(), defaults.len() + 1);
    assert_eq!(names.last().map(|s| s.as_str()), Some("log-usage"));
    let set = analyser.get_collectable_set("url").expect("registered");
    assert_eq!(set.collectable_type, "url");
}

#[test]
fn options_give_their_analyser() {
    let options = analyse_options(&object(vec![
        ("optionalWarnings", JsonValue::Bool(true)),
        ("sensitivity", text("aggressive")),
    ]));
    let analyser = options.into_analyser();
    assert_eq!(analyser.sensitivity, Sensitivity::Aggressive);
    assert!(matches!(analyser.optional_warnings, OptionalWarnings::All));
    let defaults = build_probes(Vec::new(), false, &OptionalWarnings::Disabled).len();
    assert_eq!(analyser.probes().len(), defaults + 7);
}

fn node(ty: &str, fields: Vec<(&str, JsonValue)>) -> JsonValue {
    let mut all = vec![("type", text(ty))];
    all.extend(fields);
    object(all)
}

#[test]
fn analysis_walks_statements_with_the_probes() {
    let analyser = AstAnalyser::default();
    let eval_call = node(
        "ExpressionStatement",
        vec![(
            "expression",
            node(
                "CallExpression",
                vec![
                    ("callee", node("Identifier", vec![("name", text("eval"))])),
                    ("arguments", JsonValue::Array(vec![node("Literal", vec![("value", text("1+1"))])])),
                ],
            ),
        )],
    );
    let pollution = node(
        "ExpressionStatement",
        vec![(
            "expression",
            node(
                "MemberExpression",
                vec![
                    ("object", node("Identifier", vec![("name", text("obj"))])),
                    ("property", node("Identifier", vec![("name", text("__proto__"))])),
                ],
            ),
        )],
    );
    let probes = runnable_probes();
    let report = analyser.analyse_body("eval('1+1'); obj.__proto__;", vec![eval_call, pollution], &probes, &IdentifierLookup::noop());
    let found: Vec<(String, Option<String>)> = report.warnings.iter().map(|w| (w.kind.clone(), w.value.clone())).collect();
    assert_eq!(
        found,
        vec![
            ("unsafe-stmt".to_string(), Some("eval".to_string())),
            ("prototype-pollution".to_string(), Some("obj.__proto__".to_string())),
        ]
    );
}

#[test]
fn analysis_reports_trojan_source_first() {
    let analyser = AstAnalyser::default();
    let probes = runnable_probes();
    let report = analyser.analyse_body("let a\u{202E} = 1;", Vec::new(), &probes, &IdentifierLookup::noop());
    assert_eq!(report.warnings.len(), 1);
    assert_eq!(report.warnings[0].kind, "obfuscated-code");
    assert_eq!(report.warnings[0].value.as_deref(), Some("trojan-source"));
    let clean = analyser.analyse_body("let a = 1;", Vec::new(), &probes, &IdentifierLookup::noop());
    assert!(clean.warnings.is_empty());
}

#[test]
fn no_break_space_is_no_trojan_source() {
    let analyser = AstAnalyser::default();
    let probes = runnable_probes();
    let report = analyser.analyse_body("\u{00A0}", Vec::new(), &probes, &IdentifierLookup::noop());
    assert!(report.warnings.is_empty());
    let report = analyser.analyse_body("a\u{061C}b", Vec::new(), &probes, &IdentifierLookup::noop());
    assert_eq!(report.warnings.len(), 1);
}

#[test]
fn walk_skips_children_of_a_skipped_node() {
    let analyser = AstAnalyser::default();
    let probes = runnable_probes();
    let proto = || node("Literal", vec![("value", text("__proto__"))]);
    let eval_with_proto = node(
        "ExpressionStatement",
        vec![(
            "expression",
            node(
                "CallExpression",
                vec![
                    ("callee", node("Identifier", vec![("name", text("eval"))])),
                    ("arguments", JsonValue::Array(vec![proto()])),
                ],
            ),
        )],
    );
    let array = node("ArrayExpression", vec![("elements", JsonValue::Array(vec![proto(), proto()]))]);
    let report = analyser.analyse_body("", vec![eval_with_proto, array], &probes, &IdentifierLookup::noop());
    let kinds: Vec<String> = report.warnings.iter().map(|w| w.kind.clone()).collect();
    assert_eq!(kinds, vec!["unsafe-stmt".to_string(), "prototype-pollution".to_string(), "prototype-pollution".to_string()]);
}
