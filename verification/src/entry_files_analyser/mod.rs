//! Following the imports of entry files: the error, the statistics and the
//! dependency graph with its cycles.

pub mod graph;
pub mod paths;
pub mod walk;

pub use graph::DiGraph;

use vstd::prelude::*;

use std::path::Path;

use crate::parser::{spec_js_parse, spec_parse_with, JsSourceParser, ParseError, SourceKind, SourceParser, TsSourceParser};
use indexmap::IndexSet;

use crate::ast_analyser::{AstAnalyser, AstAnalyserOptions};
use crate::collectable_set::{register_all, DefaultCollectableSet};
use crate::ast_analyser::is_declaration_file;
use crate::collections::{key_index, name_set_insert, name_set_items, name_set_len, name_set_new, set_insert};
use crate::entry_files_analyser::graph::{has_key, with_edge, with_vertex};
use crate::text::contains_seq;
use crate::entry_files_analyser::graph::first_occurrences;
use crate::text::{strings_contain, to_string, view_strings};

verus! {

pub enum EntryFilesAnalyserError {
    /// The analyser has no `dependency` collectable.
    MissingDependencyCollectable,
}

impl EntryFilesAnalyserError {
    /// The error's message.
    pub fn message(&self) -> (r: String)
        ensures
            r@ == "astAnalyzer instance must have a 'dependency' collectable"@,
    {
        crate::text::to_string("astAnalyzer instance must have a 'dependency' collectable")
    }
}

#[derive(Debug, Clone, Copy, PartialEq, Eq, Structural)]
pub struct Stats {
    pub number_of_imports_detected: usize,
    pub number_of_files_processed: usize,
}

impl Stats {
    pub fn new() -> (r: Stats)
        ensures
            r.number_of_imports_detected == 0,
            r.number_of_files_processed == 0,
    {
        Stats { number_of_imports_detected: 0, number_of_files_processed: 0 }
    }
}

/// The extensions, without their dot, of the files that imports are
/// followed to: those of JavaScript and TypeScript sources, and `node`.
pub open spec fn spec_default_extensions() -> Seq<Seq<char>> {
    seq!["js"@, "cjs"@, "mjs"@, "jsx"@, "ts"@, "mts"@, "cts"@, "tsx"@, "node"@]
}

/// `s` without the dots it starts with.
pub open spec fn trim_leading_dots(s: Seq<char>) -> Seq<char>
    decreases s.len(),
{
    if s.len() > 0 && s[0] == '.' {
        trim_leading_dots(s.drop_first())
    } else {
        s
    }
}

fn strip_leading_dots(s: &str) -> (r: String)
    ensures
        r@ == trim_leading_dots(s@),
{
    let chars = crate::text::chars_of(s);
    let mut k: usize = 0;
    assert(s@.skip(0) =~= s@);
    while k < chars.len() && chars[k] == '.'
        invariant
            chars@ == s@,
            0 <= k <= chars@.len(),
            trim_leading_dots(s@) == trim_leading_dots(s@.skip(k as int)),
        decreases chars.len() - k,
    {
        assert(s@.skip(k as int).drop_first() =~= s@.skip(k + 1));
        k = k + 1;
    }
    let r = crate::text::string_from_range(&chars, k, chars.len());
    assert(r@ =~= s@.skip(k as int));
    r
}

/// The extensions of the sources the parsers read, without their dot, and
/// `node`.
pub fn default_extensions() -> (r: Vec<String>)
    ensures
        view_strings(r@) == spec_default_extensions(),
{
    let mut all = JsSourceParser::file_extensions();
    let mut ts = TsSourceParser::file_extensions();
    let ghost js_view = view_strings(all@);
    let ghost ts_view = view_strings(ts@);
    all.append(&mut ts);
    let ghost dotted = view_strings(all@);
    assert(dotted =~= js_view + ts_view);
    assert(dotted =~= seq![".js"@, ".cjs"@, ".mjs"@, ".jsx"@, ".ts"@, ".mts"@, ".cts"@, ".tsx"@]);
    let mut r: Vec<String> = Vec::new();
    let mut i: usize = 0;
    while i < all.len()
        invariant
            0 <= i <= all@.len(),
            dotted == view_strings(all@),
            r@.len() == i,
            forall|j: int| 0 <= j < i ==> #[trigger] r@[j]@ == trim_leading_dots(dotted[j]),
        decreases all.len() - i,
    {
        let e = strip_leading_dots(all[i].as_str());
        assert(dotted[i as int] == all@[i as int]@);
        r.push(e);
        i = i + 1;
    }
    r.push(to_string("node"));
    proof {
        reveal_strlit(".js");
        reveal_strlit(".cjs");
        reveal_strlit(".mjs");
        reveal_strlit(".jsx");
        reveal_strlit(".ts");
        reveal_strlit(".mts");
        reveal_strlit(".cts");
        reveal_strlit(".tsx");
        reveal_strlit("js");
        reveal_strlit("cjs");
        reveal_strlit("mjs");
        reveal_strlit("jsx");
        reveal_strlit("ts");
        reveal_strlit("mts");
        reveal_strlit("cts");
        reveal_strlit("tsx");
        reveal_with_fuel(trim_leading_dots, 3);
        let want = spec_default_extensions();
        assert forall|j: int| 0 <= j < 9 implies #[trigger] view_strings(r@)[j] == want[j] by {
            if j < 8 {
                assert(r@[j]@ == trim_leading_dots(dotted[j]));
                assert(dotted[j].drop_first() =~= want[j]);
            }
        }
        assert(view_strings(r@) =~= want);
    }
    r
}

/// The parser of a source file, chosen by its extension.
#[derive(Debug, Clone, Copy, PartialEq, Eq, Structural)]
pub enum FileParser {
    JavaScript,
    TypeScript,
}

impl SourceParser for FileParser {
    /// What the parser gives for a source: as `JsSourceParser::parse` or
    /// `TsSourceParser::parse` does.
    open spec fn spec_parse(&self, source: Seq<char>) -> Result<Seq<char>, Seq<char>> {
        match self {
            FileParser::JavaScript => spec_js_parse(source),
            FileParser::TypeScript => spec_parse_with(source, SourceKind::TypeScript, false),
        }
    }

    fn parse(&self, source: &str) -> (r: Result<String, ParseError>) {
        match self {
            FileParser::JavaScript => JsSourceParser.parse(source),
            FileParser::TypeScript => TsSourceParser.parse(source),
        }
    }
}

/// The parser for an extension (without its dot): JavaScript for `js`,
/// `cjs`, `mjs`, `jsx`; TypeScript for `ts`, `mts`, `cts`, `tsx`.
pub open spec fn spec_parser_for_extension(extension: Seq<char>) -> Option<FileParser> {
    let dotted = seq!['.'] + extension;
    if seq![".js"@, ".cjs"@, ".mjs"@, ".jsx"@].contains(dotted) {
        Some(FileParser::JavaScript)
    } else if seq![".ts"@, ".mts"@, ".cts"@, ".tsx"@].contains(dotted) {
        Some(FileParser::TypeScript)
    } else {
        None
    }
}

/// The parser for an extension (without its dot).
pub fn parser_for_extension(extension: &str) -> (r: Option<FileParser>)
    ensures
        r == spec_parser_for_extension(extension@),
{
    let mut dotted = to_string(".");
    dotted.append(extension);
    proof {
        reveal_strlit(".");
        assert(dotted@ =~= seq!['.'] + extension@);
    }
    let js = JsSourceParser::file_extensions();
    let ts = TsSourceParser::file_extensions();
    if strings_contain(&js, dotted.as_str()) {
        Some(FileParser::JavaScript)
    } else if strings_contain(&ts, dotted.as_str()) {
        Some(FileParser::TypeScript)
    } else {
        None
    }
}

/// `Path::extension`: the part of the file name (the path's last
/// component) after its last dot. Its documentation says that much on every
/// platform: what is stated is that the extension holds no dot and follows
/// a dot in the path. Where the file name ends is not stated, since what
/// separates components depends on the platform.
#[verifier::external_body]
fn path_extension(path: &str) -> (r: Option<String>)
    ensures
        r matches Some(e) ==> !e@.contains('.') && contains_seq(path@, seq!['.'] + e@),
{
    Path::new(path).extension().and_then(|e| e.to_str()).map(|e| e.to_owned())
}

/// The parser for a file, chosen by the extension of its path: the one
/// that `parser_for_extension` gives for it, none without an extension.
pub fn get_parser_from_file_extension(file: &str) -> (r: Option<FileParser>)
    ensures
        r is Some ==> exists|extension: Seq<char>|
            #![trigger spec_parser_for_extension(extension)]
            !extension.contains('.') && contains_seq(file@, seq!['.'] + extension) && r
                == spec_parser_for_extension(extension),
        !file@.contains('.') ==> r is None,
{
    match path_extension(file) {
        Some(extension) => {
            proof {
                let needle = seq!['.'] + extension@;
                let at = choose|at: int| crate::text::occurs_at(file@, needle, at);
                assert(file@.subrange(at, at + needle.len())[0] == needle[0]);
                assert(file@[at] == '.');
            }
            parser_for_extension(extension.as_str())
        },
        None => None,
    }
}

/// The paths at which an import of `file_path` may be found, in the order
/// they are tried: with no extension, the path with each allowed extension
/// appended; with an allowed extension, the path itself; else none.
pub open spec fn spec_dep_path_candidates(
    file_path: Seq<char>,
    extension: Option<Seq<char>>,
    allowed: Seq<Seq<char>>,
) -> Seq<Seq<char>> {
    match extension {
        None => allowed.map_values(|e: Seq<char>| file_path + seq!['.'] + e),
        Some(e) => if allowed.contains(e) {
            seq![file_path]
        } else {
            Seq::empty()
        },
    }
}

/// The paths at which an import may be found, in the order they are tried.
pub fn dep_path_candidates(file_path: &str, extension: Option<&str>, allowed: &Vec<String>) -> (r:
    Vec<String>)
    ensures
        view_strings(r@) == spec_dep_path_candidates(
            file_path@,
            match extension {
                Some(e) => Some(e@),
                None => None,
            },
            view_strings(allowed@),
        ),
{
    match extension {
        None => {
            let mut r: Vec<String> = Vec::new();
            let mut i: usize = 0;
            while i < allowed.len()
                invariant
                    0 <= i <= allowed@.len(),
                    r@.len() == i,
                    forall|j: int|
                        0 <= j < i ==> #[trigger] r@[j]@ == file_path@ + seq!['.'] + allowed@[j]@,
                decreases allowed.len() - i,
            {
                let mut p = to_string(file_path);
                p.append(".");
                p.append(allowed[i].as_str());
                proof {
                    reveal_strlit(".");
                    assert(p@ =~= file_path@ + seq!['.'] + allowed@[i as int]@);
                }
                r.push(p);
                i = i + 1;
            }
            assert(view_strings(r@) =~= view_strings(allowed@).map_values(
                |e: Seq<char>| file_path@ + seq!['.'] + e,
            ));
            r
        },
        Some(e) => {
            if strings_contain(allowed, e) {
                let mut r: Vec<String> = Vec::new();
                r.push(to_string(file_path));
                assert(view_strings(r@) =~= seq![file_path@]);
                r
            } else {
                let r: Vec<String> = Vec::new();
                assert(view_strings(r@) =~= Seq::<Seq<char>>::empty());
                r
            }
        },
    }
}

/// How an entry-files analyser is set up.
pub struct EntryFilesAnalyserOptions {
    /// The analyser of each file; by default one that collects the
    /// `dependency` values.
    pub ast_analyzer: Option<AstAnalyser>,
    /// The extensions that imports are followed to, in place of the
    /// default ones.
    pub load_extensions: Option<Vec<String>>,
    pub root_path: Option<String>,
    pub ignore_enoent: bool,
    pub package_dependencies: Vec<String>,
}

/// Follows the imports of entry files, file by file.
pub struct EntryFilesAnalyser {
    pub ast_analyzer: AstAnalyser,
    pub allowed_extensions: IndexSet<String>,
    pub root_path: Option<String>,
    pub ignore_enoent: bool,
    pub package_dependencies: Vec<String>,
    pub dependencies: DiGraph,
    pub stats: Stats,
    pub unique_imports: IndexSet<String>,
    /// Where an analysis stands (see `step`).
    pub walk: walk::EntryWalk,
}

/// Whether an analyser collects the `dependency` values.
pub open spec fn collects_dependencies(analyser: AstAnalyser) -> bool {
    key_index(analyser.collectable_registry.spec_sets(), "dependency"@) is Some
}

/// The extensions that imports are followed to: those given, or the
/// default ones.
pub open spec fn spec_allowed_extensions(load_extensions: Option<Vec<String>>) -> Seq<Seq<char>> {
    match load_extensions {
        Some(v) => view_strings(v@),
        None => spec_default_extensions(),
    }
}

impl EntryFilesAnalyser {
    /// An analyser with these options. It fails when the given file
    /// analyser collects no `dependency` values; without one, a file
    /// analyser that collects them is made.
    pub fn new(options: EntryFilesAnalyserOptions) -> (r: Result<EntryFilesAnalyser, EntryFilesAnalyserError>)
        ensures
            match options.ast_analyzer {
                Some(a) => r is Err <==> !collects_dependencies(a),
                None => r is Ok,
            },
            r matches Ok(e) ==> {
                &&& collects_dependencies(e.ast_analyzer)
                &&& options.ast_analyzer matches Some(a) ==> e.ast_analyzer == a
                &&& name_set_items(e.allowed_extensions) == first_occurrences(
                    spec_allowed_extensions(options.load_extensions),
                )
                &&& e.root_path == options.root_path
                &&& e.ignore_enoent == options.ignore_enoent
                &&& e.package_dependencies == options.package_dependencies
                &&& e.dependencies.entries() == Seq::<(Seq<char>, Seq<Seq<char>>)>::empty()
                &&& e.stats.number_of_imports_detected == 0
                &&& e.stats.number_of_files_processed == 0
                &&& name_set_items(e.unique_imports) == Seq::<Seq<char>>::empty()
            },
    {
        let EntryFilesAnalyserOptions {
            ast_analyzer,
            load_extensions,
            root_path,
            ignore_enoent,
            package_dependencies,
        } = options;
        let ghost given = ast_analyzer;
        let ast_analyzer = match ast_analyzer {
            Some(a) => a,
            None => {
                let mut setup = AstAnalyserOptions::default();
                setup.collectables.push(DefaultCollectableSet::new("dependency"));
                let a = AstAnalyser::new(setup);
                proof {
                    reveal_strlit("dependency");
                    let sets = setup.collectables@;
                    let empty = Seq::<(Seq<char>, DefaultCollectableSet)>::empty();
                    assert(sets.len() == 1);
                    assert(sets.drop_last() =~= Seq::<DefaultCollectableSet>::empty());
                    assert(register_all(empty, sets.drop_last()) == empty);
                    assert(key_index(empty, sets.last().collectable_type@) is None);
                    let entries = a.collectable_registry.spec_sets();
                    assert(entries == empty.push((sets.last().collectable_type@, sets.last())));
                    assert(entries.drop_last() =~= empty);
                    assert(key_index(entries, "dependency"@) is Some);
                }
                a
            },
        };
        let has_dependency = match ast_analyzer.get_collectable_set("dependency") {
            Some(_) => true,
            None => false,
        };
        if !has_dependency {
            return Err(EntryFilesAnalyserError::MissingDependencyCollectable);
        }
        let raw_allowed_extensions = match load_extensions {
            Some(v) => v,
            None => default_extensions(),
        };
        let ghost exts = view_strings(raw_allowed_extensions@);
        let mut allowed_extensions = name_set_new();
        let mut i: usize = 0;
        while i < raw_allowed_extensions.len()
            invariant
                exts == view_strings(raw_allowed_extensions@),
                0 <= i <= exts.len(),
                name_set_items(allowed_extensions) == first_occurrences(exts.take(i as int)),
            decreases raw_allowed_extensions.len() - i,
        {
            assert(exts.take(i + 1).drop_last() =~= exts.take(i as int));
            let _ = name_set_insert(&mut allowed_extensions, raw_allowed_extensions[i].clone());
            i = i + 1;
        }
        assert(exts.take(i as int) =~= exts);
        Ok(EntryFilesAnalyser {
            ast_analyzer,
            allowed_extensions,
            root_path,
            ignore_enoent,
            package_dependencies,
            dependencies: DiGraph::new(),
            stats: Stats::new(),
            unique_imports: name_set_new(),
            walk: walk::EntryWalk::new(),
        })
    }
}

impl EntryFilesAnalyser {
    /// The analyser of each file.
    pub fn ast_analyzer(&self) -> (r: &AstAnalyser)
        ensures
            *r == self.ast_analyzer,
    {
        &self.ast_analyzer
    }

    /// Clears what an earlier analysis left: the graph, the statistics and
    /// the imports seen.
    pub fn begin_analysis(&mut self)
        ensures
            final(self).dependencies.entries() == Seq::<(Seq<char>, Seq<Seq<char>>)>::empty(),
            final(self).stats.number_of_imports_detected == 0,
            final(self).stats.number_of_files_processed == 0,
            name_set_items(final(self).unique_imports) == Seq::<Seq<char>>::empty(),
            final(self).ast_analyzer == old(self).ast_analyzer,
            final(self).allowed_extensions == old(self).allowed_extensions,
            final(self).root_path == old(self).root_path,
            final(self).ignore_enoent == old(self).ignore_enoent,
            final(self).package_dependencies == old(self).package_dependencies,
            final(self).walk == old(self).walk,
    {
        self.dependencies = DiGraph::new();
        self.stats = Stats::new();
        self.unique_imports = name_set_new();
    }

    /// Starts on a file: a declaration file is not analysed (`false`);
    /// otherwise its vertex is added to the graph.
    pub fn enter_file(&mut self, file: &str, relative_file: &str) -> (r: bool)
        ensures
            r == !contains_seq(file@, "d.ts"@),
            final(self).dependencies.entries() == if r {
                with_vertex(old(self).dependencies.entries(), relative_file@)
            } else {
                old(self).dependencies.entries()
            },
            final(self).stats == old(self).stats,
            final(self).unique_imports == old(self).unique_imports,
            final(self).package_dependencies == old(self).package_dependencies,
    {
        if is_declaration_file(file) {
            return false;
        }
        self.dependencies.add_vertex(to_string(relative_file));
        true
    }

    /// Counts an analysed file.
    pub fn file_processed(&mut self)
        requires
            old(self).stats.number_of_files_processed < usize::MAX,
        ensures
            final(self).stats.number_of_files_processed == old(self).stats.number_of_files_processed + 1,
            final(self).stats.number_of_imports_detected == old(self).stats.number_of_imports_detected,
            final(self).dependencies == old(self).dependencies,
            final(self).unique_imports == old(self).unique_imports,
            final(self).package_dependencies == old(self).package_dependencies,
            final(self).walk == old(self).walk,
            final(self).ast_analyzer == old(self).ast_analyzer,
            final(self).allowed_extensions == old(self).allowed_extensions,
            final(self).root_path == old(self).root_path,
            final(self).ignore_enoent == old(self).ignore_enoent,
    {
        self.stats.number_of_files_processed = self.stats.number_of_files_processed + 1;
    }

    /// Whether an import names a dependency of the package, which is not
    /// followed.
    pub fn is_package_dependency(&self, name: &str) -> (r: bool)
        ensures
            r == view_strings(self.package_dependencies@).contains(name@),
    {
        strings_contain(&self.package_dependencies, name)
    }

    /// Records that `relative_file` imports the file `dep_file` (whose path
    /// relative to the root is `dep_relative_file`): the import is seen, and
    /// the graph gets the dependency's vertex and the edge to it. Says
    /// whether the dependency is new, and so is to be analysed.
    pub fn follow_import(&mut self, relative_file: &str, dep_file: &str, dep_relative_file: &str) -> (r: bool)
        ensures
            r == !has_key(old(self).dependencies.entries(), dep_relative_file@),
            name_set_items(final(self).unique_imports) == set_insert(
                name_set_items(old(self).unique_imports),
                dep_file@,
            ),
            final(self).dependencies.entries() == with_edge(
                with_vertex(old(self).dependencies.entries(), dep_relative_file@),
                relative_file@,
                dep_relative_file@,
            ),
            final(self).stats == old(self).stats,
            final(self).package_dependencies == old(self).package_dependencies,
    {
        let _ = name_set_insert(&mut self.unique_imports, to_string(dep_file));
        self.dependencies.link_dependency(relative_file, dep_relative_file)
    }

    /// Ends the analysis: the imports detected are the distinct files seen.
    pub fn end_analysis(&mut self)
        ensures
            final(self).stats.number_of_imports_detected == name_set_items(old(self).unique_imports).len(),
            final(self).stats.number_of_files_processed == old(self).stats.number_of_files_processed,
            final(self).dependencies == old(self).dependencies,
            final(self).unique_imports == old(self).unique_imports,
            final(self).package_dependencies == old(self).package_dependencies,
            final(self).walk == old(self).walk,
            final(self).ast_analyzer == old(self).ast_analyzer,
            final(self).allowed_extensions == old(self).allowed_extensions,
            final(self).root_path == old(self).root_path,
            final(self).ignore_enoent == old(self).ignore_enoent,
    {
        self.stats.number_of_imports_detected = name_set_len(&self.unique_imports);
    }
}

} // verus!
