use js_x_ray::entry_files_analyser::paths::{get_relative_file_path, normalize_path, relative_text, PartKind, PathPart};
use js_x_ray::entry_files_analyser::walk::{EntryAction, EntryEvent};
use js_x_ray::entry_files_analyser::{
    default_extensions, dep_path_candidates, parser_for_extension, EntryFilesAnalyser, EntryFilesAnalyserError,
    get_parser_from_file_extension, EntryFilesAnalyserOptions, FileParser, Stats,
};
use js_x_ray::ast_analyser::{parse_program, AstAnalyser, AstAnalyserOptions};
use js_x_ray::parser::SourceParser;
use js_x_ray::collectable_set::DefaultCollectableSet;

fn strings(items: &[&str]) -> Vec<String> {
    items.iter().map(|s| s.to_string()).collect()
}

#[test]
fn default_extensions_without_dots() {
    assert_eq!(default_extensions(), strings(&["js", "cjs", "mjs", "jsx", "ts", "mts", "cts", "tsx", "node"]));
}

#[test]
fn parsers_by_extension() {
    assert_eq!(parser_for_extension("js"), Some(FileParser::JavaScript));
    assert_eq!(parser_for_extension("jsx"), Some(FileParser::JavaScript));
    assert_eq!(parser_for_extension("mts"), Some(FileParser::TypeScript));
    assert_eq!(parser_for_extension("json"), None);
    assert_eq!(parser_for_extension(""), None);
    assert!(FileParser::TypeScript.parse("let a: string = 'x';").is_ok());
    assert!(FileParser::JavaScript.parse("let a: string = 'x';").is_err());
}

#[test]
fn candidates_for_an_import() {
    let allowed = strings(&["js", "ts"]);
    assert_eq!(dep_path_candidates("lib/foo", None, &allowed), strings(&["lib/foo.js", "lib/foo.ts"]));
    assert_eq!(dep_path_candidates("lib/foo.js", Some("js"), &allowed), strings(&["lib/foo.js"]));
    assert!(dep_path_candidates("lib/foo.json", Some("json"), &allowed).is_empty());
}

#[test]
fn relative_file_path_without_root_is_the_path() {
    assert_eq!(get_relative_file_path("src/a.js", None), "src/a.js");
}

#[test]
fn error_message_and_stats() {
    assert_eq!(
        EntryFilesAnalyserError::MissingDependencyCollectable.message(),
        "astAnalyzer instance must have a 'dependency' collectable"
    );
    let stats = Stats::new();
    assert_eq!(stats.number_of_files_processed, 0);
    assert_eq!(stats.number_of_imports_detected, 0);
}

fn options(ast_analyzer: Option<AstAnalyser>, load_extensions: Option<Vec<String>>) -> EntryFilesAnalyserOptions {
    EntryFilesAnalyserOptions {
        ast_analyzer,
        load_extensions,
        root_path: None,
        ignore_enoent: false,
        package_dependencies: Vec::new(),
    }
}

#[test]
fn entry_files_analyser_defaults_to_a_dependency_collector() {
    let analyser = match EntryFilesAnalyser::new(options(None, None)) {
        Ok(a) => a,
        Err(_) => panic!("the default analyser collects dependencies"),
    };
    assert!(analyser.ast_analyzer.get_collectable_set("dependency").is_some());
    let allowed: Vec<String> = analyser.allowed_extensions.iter().cloned().collect();
    assert_eq!(allowed, default_extensions());
    assert_eq!(analyser.stats.number_of_files_processed, 0);
    assert!(analyser.unique_imports.is_empty());
}

#[test]
fn entry_files_analyser_needs_a_dependency_collectable() {
    let without = AstAnalyser::new(AstAnalyserOptions::default());
    assert!(matches!(
        EntryFilesAnalyser::new(options(Some(without), None)),
        Err(EntryFilesAnalyserError::MissingDependencyCollectable)
    ));
    let mut setup = AstAnalyserOptions::default();
    setup.collectables.push(DefaultCollectableSet::new("url"));
    setup.collectables.push(DefaultCollectableSet::new("dependency"));
    let with = AstAnalyser::new(setup);
    let analyser = match EntryFilesAnalyser::new(options(Some(with), Some(strings(&["js", "ts", "js"])))) {
        Ok(a) => a,
        Err(_) => panic!("a dependency collectable is registered"),
    };
    let allowed: Vec<String> = analyser.allowed_extensions.iter().cloned().collect();
    assert_eq!(allowed, strings(&["js", "ts"]));
}

#[test]
fn entry_files_analysis_steps_build_the_graph() {
    let mut analyser = match EntryFilesAnalyser::new(EntryFilesAnalyserOptions {
        ast_analyzer: None,
        load_extensions: None,
        root_path: Some("/p".to_string()),
        ignore_enoent: false,
        package_dependencies: strings(&["lodash"]),
    }) {
        Ok(a) => a,
        Err(_) => panic!("the default analyser collects dependencies"),
    };
    analyser.begin_analysis();
    assert!(!analyser.enter_file("/p/types.d.ts", "types.d.ts"));
    assert!(analyser.enter_file("/p/a.js", "a.js"));
    analyser.file_processed();
    assert!(analyser.is_package_dependency("lodash"));
    assert!(!analyser.is_package_dependency("./b"));
    assert!(analyser.follow_import("a.js", "/p/b.js", "b.js"));
    assert!(analyser.enter_file("/p/b.js", "b.js"));
    analyser.file_processed();
    assert!(!analyser.follow_import("b.js", "/p/a.js", "a.js"));
    analyser.end_analysis();
    assert_eq!(analyser.stats.number_of_files_processed, 2);
    assert_eq!(analyser.stats.number_of_imports_detected, 2);
    assert!(!analyser.dependencies.has_vertex("types.d.ts"));
    assert_eq!(analyser.dependencies.find_cycles(), vec![strings(&["a.js", "b.js"])]);
    assert!(analyser.ast_analyzer().get_collectable_set("dependency").is_some());
    analyser.begin_analysis();
    assert!(!analyser.dependencies.has_vertex("a.js"));
    assert_eq!(analyser.stats.number_of_files_processed, 0);
}

#[test]
fn programs_are_read_after_the_source_is_made_ready() {
    assert!(parse_program("#!/usr/bin/env node\nconst a = 1;", false, None).is_ok());
    assert!(parse_program("let a: string = 'x';", false, Some(FileParser::TypeScript)).is_ok());
    assert!(parse_program("let a: string = 'x';", false, None).is_err());
    let json = parse_program("<!-- note -->\nconst b = 2;", true, Some(FileParser::JavaScript)).unwrap();
    assert!(json.contains("\"body\""));
}

fn part(kind: PartKind, text: &str) -> PathPart {
    PathPart { kind, text: text.to_string() }
}

#[test]
fn relative_text_climbs_then_descends() {
    let from = vec![part(PartKind::RootDir, "/"), part(PartKind::Normal, "a"), part(PartKind::Normal, "b")];
    let to = vec![part(PartKind::RootDir, "/"), part(PartKind::Normal, "a"), part(PartKind::Normal, "c"), part(PartKind::Normal, "d.js")];
    assert_eq!(relative_text(&from, &to, "/"), "../c/d.js");
    assert_eq!(relative_text(&from, &from, "/"), ".");
    assert_eq!(relative_text(&to, &from, "\\"), "..\\..\\b");
}

#[test]
fn parser_from_file_extension() {
    assert_eq!(get_parser_from_file_extension("src/index.ts"), Some(FileParser::TypeScript));
    assert_eq!(get_parser_from_file_extension("src/index.cjs"), Some(FileParser::JavaScript));
    assert_eq!(get_parser_from_file_extension("README"), None);
    assert_eq!(get_parser_from_file_extension("style.css"), None);
}

#[test]
fn entry_files_walk_follows_imports_depth_first() {
    let mut analyser = match EntryFilesAnalyser::new(options(None, None)) {
        Ok(a) => a,
        Err(_) => panic!("the default analyser collects dependencies"),
    };
    analyser.package_dependencies = strings(&["lodash"]);
    let mut analysed: Vec<String> = Vec::new();
    let mut resolved: Vec<(String, String)> = Vec::new();
    let mut action = analyser.step(EntryEvent::Start(strings(&["a.js", "a.js", "types.d.ts"])));
    loop {
        action = match action {
            EntryAction::Proceed => analyser.step(EntryEvent::Next),
            EntryAction::CheckExists(_) => panic!("entry files are not checked"),
            EntryAction::Analyse { file, relative_file } => {
                assert_eq!(file, relative_file);
                analysed.push(file.clone());
                let imports = match file.as_str() {
                    "a.js" => strings(&["./b", "lodash", "./missing"]),
                    "b.js" => strings(&["./a"]),
                    _ => Vec::new(),
                };
                analyser.step(EntryEvent::Analysed(Some(imports)))
            }
            EntryAction::Resolve { file, name } => {
                resolved.push((file.clone(), name.clone()));
                let target = match name.as_str() {
                    "./b" => Some("b.js".to_string()),
                    "./a" => Some("a.js".to_string()),
                    _ => None,
                };
                analyser.step(EntryEvent::Resolved(target))
            }
            EntryAction::Done => break,
        };
    }
    assert_eq!(analysed, strings(&["a.js", "b.js"]));
    assert_eq!(
        resolved,
        vec![
            ("a.js".to_string(), "./b".to_string()),
            ("b.js".to_string(), "./a".to_string()),
            ("a.js".to_string(), "./missing".to_string()),
        ]
    );
    assert_eq!(analyser.stats.number_of_files_processed, 2);
    assert_eq!(analyser.stats.number_of_imports_detected, 2);
    assert_eq!(analyser.dependencies.find_cycles(), vec![strings(&["a.js", "b.js"])]);
    assert!(!analyser.dependencies.has_vertex("types.d.ts"));
}

#[test]
fn entry_files_walk_skips_missing_entries() {
    let mut analyser = match EntryFilesAnalyser::new(EntryFilesAnalyserOptions {
        ast_analyzer: None,
        load_extensions: None,
        root_path: None,
        ignore_enoent: true,
        package_dependencies: Vec::new(),
    }) {
        Ok(a) => a,
        Err(_) => panic!("the default analyser collects dependencies"),
    };
    let mut action = analyser.step(EntryEvent::Start(strings(&["gone.js"])));
    let mut asked = 0;
    loop {
        action = match action {
            EntryAction::Proceed => analyser.step(EntryEvent::Next),
            EntryAction::CheckExists(_) => {
                asked += 1;
                analyser.step(EntryEvent::Exists(false))
            }
            EntryAction::Done => break,
            _ => panic!("a missing entry is not analysed"),
        };
    }
    assert_eq!(asked, 1);
    assert_eq!(analyser.stats.number_of_files_processed, 0);
}

#[test]
fn normalize_path_resolves_dots() {
    assert_eq!(normalize_path("a/./b/.."), "a");
    assert_eq!(normalize_path("a/.."), ".");
    assert_eq!(normalize_path("/x/y/../z"), "/x/z");
}
