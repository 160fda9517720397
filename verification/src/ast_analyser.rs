//! The analyser's own decisions: preparing a source, and which optional
//! probes a configuration turns on.

use vstd::prelude::*;

use indexmap::IndexSet;

use crate::collections::{name_set_contains, name_set_insert, name_set_items, set_insert};
use crate::entry_files_analyser::FileParser;
use crate::parser::{spec_js_parse, JsSourceParser, ParseError, SourceParser};
use crate::estree::functions::{call_expression_identifier, spec_call_identifier};
use crate::estree::types::{is_call_expression, no_lookup, spec_is_type};
use crate::json::JsonValue;
use crate::patterns::{regex_replaced, regex_valid, Pattern};
use crate::collectable_set::{register_all, CollectableSetRegistry, DefaultCollectableSet};
use crate::collections::key_index;
use crate::estree::types::IdentifierLookup;

use crate::pipelines::{Inline, Pipeline};
use crate::probe_runner::{spec_walk_items, view_warnings, walk_ast, warning_view, Probe, Warning, WarningView};
use crate::probe::{clone_infos, view_infos, ProbeInfo, ProbeView, Sensitivity};
use crate::probes::{default_infos, default_probes, optional_info, optional_probe};
use crate::text::{
    contains_seq, str_contains, chars_of, str_ends_with, str_eq, str_starts_with, string_from_range, to_string, view_strings,
};

verus! {

/// Which optional warnings to turn on.
pub enum OptionalWarnings {
    Disabled,
    All,
    /// Explicit names; entries ending in `.*` are prefix patterns.
    Names(Vec<String>),
}

/// What an analysis parses a source into: the source made ready for the
/// parser, then parsed by the given parser, or else by the JavaScript one.
pub open spec fn spec_parse_program(
    source: Seq<char>,
    remove_html_comments: bool,
    parser: Option<FileParser>,
) -> Result<Seq<char>, Seq<char>> {
    let prepared = spec_prepare_source(source, remove_html_comments);
    match parser {
        Some(p) => p.spec_parse(prepared),
        None => spec_js_parse(prepared),
    }
}

/// The program of a source, as an analysis reads it: made ready for the
/// parser, then parsed by the given parser, or else by the JavaScript one.
pub fn parse_program(source: &str, remove_html_comments: bool, parser: Option<FileParser>) -> (r: Result<
    String,
    ParseError,
>)
    ensures
        match r {
            Ok(json) => spec_parse_program(source@, remove_html_comments, parser) == Ok::<
                Seq<char>,
                Seq<char>,
            >(json@),
            Err(e) => spec_parse_program(source@, remove_html_comments, parser) == Err::<
                Seq<char>,
                Seq<char>,
            >(e.message@),
        },
{
    let prepared = prepare_source(source, remove_html_comments);
    match parser {
        Some(p) => p.parse(prepared.as_str()),
        None => JsSourceParser.parse(prepared.as_str()),
    }
}

/// The names of the optional warnings, each with its probe.
pub open spec fn optional_names() -> Seq<Seq<char>> {
    seq![
        "synchronous-io"@,
        "log-usage"@,
        "insecure-random"@,
        "crypto.weak-scrypt"@,
        "crypto.unsafe-prehash"@,
        "crypto.weak-bcrypt"@,
        "crypto.password-shucking"@,
    ]
}

/// The names of the optional warnings, each with its probe.
pub fn optional_probe_names() -> (r: Vec<String>)
    ensures
        view_strings(r@) == optional_names(),
{
    crate::probes::strings(
        &[
            "synchronous-io",
            "log-usage",
            "insecure-random",
            "crypto.weak-scrypt",
            "crypto.unsafe-prehash",
            "crypto.weak-bcrypt",
            "crypto.password-shucking",
        ],
    )
}

/// The position of the first line feed of `s`.
pub open spec fn first_newline(s: Seq<char>) -> Option<int>
    decreases s.len(),
{
    if s.len() == 0 {
        None
    } else {
        match first_newline(s.drop_last()) {
            Some(i) => Some(i),
            None => if s.last() == '\n' {
                Some(s.len() - 1)
            } else {
                None
            },
        }
    }
}

proof fn lemma_first_newline(s: Seq<char>)
    ensures
        first_newline(s) matches Some(i) ==> 0 <= i < s.len() && s[i] == '\n' && forall|j: int|
            0 <= j < i ==> s[j] != '\n',
        first_newline(s) is None ==> forall|j: int| 0 <= j < s.len() ==> s[j] != '\n',
    decreases s.len(),
{
    if s.len() > 0 {
        lemma_first_newline(s.drop_last());
        assert forall|j: int| 0 <= j < s.len() - 1 implies s[j] == s.drop_last()[j] by {}
    }
}

/// The pattern of an HTML comment, shortest match first.
pub open spec fn html_comment_pattern() -> Seq<char> {
    "(?s)<!--.*?(?:-->)"@
}

/// A source without its HTML comments.
pub open spec fn spec_remove_html_comment(s: Seq<char>) -> Seq<char> {
    if regex_valid(html_comment_pattern()) {
        regex_replaced(html_comment_pattern(), s, ""@)
    } else {
        s
    }
}

/// A source made ready for the parser: a first line that starts with `#`
/// (a shebang) is dropped, when a line follows it; then, when asked, the
/// HTML comments are removed.
pub open spec fn spec_prepare_source(source: Seq<char>, remove_html_comments: bool) -> Seq<char> {
    let raw = if source.len() > 0 && source[0] == '#' {
        match first_newline(source) {
            Some(i) => source.skip(i + 1),
            None => source,
        }
    } else {
        source
    };
    if remove_html_comments {
        spec_remove_html_comment(raw)
    } else {
        raw
    }
}

/// Removes the HTML comments of a source (`<!--` up to the first `-->`).
pub fn remove_html_comment(s: &str) -> (r: String)
    ensures
        r@ == spec_remove_html_comment(s@),
{
    match Pattern::new("(?s)<!--.*?(?:-->)") {
        Ok(p) => p.replace_all(s, ""),
        Err(_) => to_string(s),
    }
}

/// A source made ready for the parser: without its shebang line, and
/// without its HTML comments when asked.
pub fn prepare_source(source: &str, remove_html_comments: bool) -> (r: String)
    ensures
        r@ == spec_prepare_source(source@, remove_html_comments),
{
    let chars = chars_of(source);
    let mut raw = to_string(source);
    if chars.len() > 0 && chars[0] == '#' {
        proof {
            lemma_first_newline(chars@);
        }
        let mut i: usize = 0;
        while i < chars.len()
            invariant_except_break
                raw@ == source@,
            invariant
                chars@ == source@,
                0 <= i <= chars@.len(),
                forall|j: int| 0 <= j < i ==> chars@[j] != '\n',
                first_newline(source@) matches Some(f) ==> 0 <= f < source@.len() && source@[f]
                    == '\n',
            ensures
                raw@ == match first_newline(source@) {
                    Some(f) => source@.skip(f + 1),
                    None => source@,
                },
            decreases chars.len() - i,
        {
            if chars[i] == '\n' {
                proof {
                    assert(first_newline(source@) == Some(i as int)) by {
                        lemma_first_newline(source@);
                        match first_newline(source@) {
                            Some(f) => {
                                assert(f == i);
                            },
                            None => {},
                        }
                    }
                    assert(chars@.subrange(i + 1, chars@.len() as int) =~= source@.skip(i + 1));
                }
                raw = string_from_range(&chars, i + 1, chars.len());
                break;
            }
            i = i + 1;
        }
        proof {
            lemma_first_newline(source@);
        }
    }
    if remove_html_comments {
        remove_html_comment(raw.as_str())
    } else {
        raw
    }
}

/// Whether a node calls `eval`.
pub open spec fn spec_is_eval_call(node: JsonValue) -> bool {
    spec_is_type(node, "CallExpression"@) && spec_call_identifier(node, no_lookup(), true) == Some(
        "eval"@,
    )
}

/// Whether a node calls `eval`.
pub fn is_eval_call_expr(node: &JsonValue) -> (r: bool)
    ensures
        r == spec_is_eval_call(*node),
{
    if !is_call_expression(node) {
        return false;
    }
    match call_expression_identifier(node) {
        Some(id) => str_eq(id.as_str(), "eval"),
        None => false,
    }
}

/// Whether a warning name is a prefix pattern (`crypto.*`).
pub open spec fn is_prefix_pattern(name: Seq<char>) -> bool {
    ".*"@.is_suffix_of(name)
}

/// The optional probes whose warning names start with `prefix`, in the
/// order of `keys`.
pub open spec fn prefix_selection(keys: Seq<Seq<char>>, prefix: Seq<char>) -> Seq<ProbeView>
    decreases keys.len(),
{
    if keys.len() == 0 {
        Seq::empty()
    } else {
        prefix_selection(keys.drop_last(), prefix) + if prefix.is_prefix_of(keys.last()) {
            match optional_info(keys.last()) {
                Some(i) => seq![i],
                None => Seq::empty(),
            }
        } else {
            Seq::empty()
        }
    }
}

/// The optional probes that one configured name turns on: every warning
/// under a `prefix.*` pattern, else the warning of that name, if any.
pub open spec fn name_selection(name: Seq<char>) -> Seq<ProbeView> {
    if is_prefix_pattern(name) {
        prefix_selection(optional_names(), name.take(name.len() - 2).push('.'))
    } else {
        match optional_info(name) {
            Some(i) => seq![i],
            None => Seq::empty(),
        }
    }
}

/// The optional probes that a list of configured names turns on, name
/// after name.
pub open spec fn names_selection(names: Seq<Seq<char>>) -> Seq<ProbeView>
    decreases names.len(),
{
    if names.len() == 0 {
        Seq::empty()
    } else {
        names_selection(names.drop_last()) + name_selection(names.last())
    }
}

/// The optional probes that a configuration turns on.
pub open spec fn optional_selection(warnings: OptionalWarnings) -> Seq<ProbeView> {
    match warnings {
        OptionalWarnings::Disabled => Seq::empty(),
        OptionalWarnings::All => prefix_selection(optional_names(), Seq::empty()),
        OptionalWarnings::Names(names) => names_selection(view_strings(names@)),
    }
}

/// The probes of an analysis: the default ones (unless custom probes are
/// given and the defaults are skipped), then the custom ones, then those of
/// the optional warnings turned on.
pub open spec fn spec_build_probes(
    custom: Seq<ProbeView>,
    skip_default_probes: bool,
    warnings: OptionalWarnings,
) -> Seq<ProbeView> {
    (if custom.len() > 0 && skip_default_probes {
        Seq::empty()
    } else {
        default_infos()
    }) + custom + optional_selection(warnings)
}

/// Appends the probes of the optional warnings whose names start with
/// `prefix`.
fn push_prefix_selection(probes: &mut Vec<ProbeInfo>, prefix: &str)
    ensures
        view_infos(final(probes)@) == view_infos(old(probes)@) + prefix_selection(
            optional_names(),
            prefix@,
        ),
{
    let keys = optional_probe_names();
    let ghost start = view_infos(probes@);
    let ghost names = optional_names();
    proof {
        assert(names.take(0) =~= Seq::<Seq<char>>::empty());
        assert(start + Seq::<ProbeView>::empty() =~= start);
    }
    let mut k: usize = 0;
    while k < keys.len()
        invariant
            view_strings(keys@) == names,
            names == optional_names(),
            0 <= k <= keys@.len(),
            view_infos(probes@) == start + prefix_selection(names.take(k as int), prefix@),
        decreases keys.len() - k,
    {
        proof {
            assert(names.take(k + 1).drop_last() =~= names.take(k as int));
            assert(names.take(k + 1).last() == keys@[k as int]@);
        }
        let ghost before = view_infos(probes@);
        if str_starts_with(keys[k].as_str(), prefix) {
            match optional_probe(keys[k].as_str()) {
                Some(info) => {
                    let ghost iv = info@;
                    probes.push(info);
                    proof {
                        assert(view_infos(probes@) =~= before + seq![iv]);
                    }
                },
                None => {
                    proof {
                        assert(before + Seq::<ProbeView>::empty() =~= before);
                    }
                },
            }
        } else {
            proof {
                assert(before + Seq::<ProbeView>::empty() =~= before);
            }
        }
        proof {
            assert((start + prefix_selection(names.take(k as int), prefix@)) + prefix_selection(
                names.take(k + 1),
                prefix@,
            ).subrange(prefix_selection(names.take(k as int), prefix@).len() as int, prefix_selection(
                names.take(k + 1),
                prefix@,
            ).len() as int) =~= start + prefix_selection(names.take(k + 1), prefix@));
        }
        k = k + 1;
    }
    proof {
        assert(names.take(keys@.len() as int) =~= names);
    }
}

/// The probes of an analysis: the default ones (unless custom probes are
/// given and the defaults are skipped), then the custom ones, then those of
/// the optional warnings turned on.
pub fn build_probes(
    custom_probes: Vec<ProbeInfo>,
    skip_default_probes: bool,
    optional_warnings: &OptionalWarnings,
) -> (r: Vec<ProbeInfo>)
    ensures
        view_infos(r@) == spec_build_probes(
            view_infos(custom_probes@),
            skip_default_probes,
            *optional_warnings,
        ),
{
    let ghost custom = view_infos(custom_probes@);
    let mut probes = if custom_probes.len() > 0 && skip_default_probes {
        Vec::new()
    } else {
        default_probes()
    };
    let ghost base = view_infos(probes@);
    proof {
        assert(custom_probes@.len() > 0 && skip_default_probes ==> base =~= Seq::<ProbeView>::empty());
    }
    let mut custom_probes = custom_probes;
    probes.append(&mut custom_probes);
    proof {
        assert(view_infos(probes@) =~= base + custom);
    }
    match optional_warnings {
        OptionalWarnings::Disabled => {
            proof {
                assert(view_infos(probes@) + Seq::<ProbeView>::empty() =~= view_infos(probes@));
            }
        },
        OptionalWarnings::All => {
            push_prefix_selection(&mut probes, "");
            proof {
                reveal_strlit("");
                assert(""@ =~= Seq::<char>::empty());
            }
        },
        OptionalWarnings::Names(names) => {
            let ghost start = view_infos(probes@);
            let ghost ns = view_strings(names@);
            proof {
                assert(ns.take(0) =~= Seq::<Seq<char>>::empty());
                assert(start + Seq::<ProbeView>::empty() =~= start);
            }
            let mut i: usize = 0;
            while i < names.len()
                invariant
                    ns == view_strings(names@),
                    0 <= i <= names@.len(),
                    view_infos(probes@) == start + names_selection(ns.take(i as int)),
                decreases names.len() - i,
            {
                proof {
                    assert(ns.take(i + 1).drop_last() =~= ns.take(i as int));
                    assert(ns.take(i + 1).last() == names@[i as int]@);
                }
                let ghost before = view_infos(probes@);
                let name = names[i].as_str();
                if str_ends_with(name, ".*") {
                    proof {
                        reveal_strlit(".*");
                        assert(".*"@.len() == 2);
                    }
                    let chars = chars_of(name);
                    let mut prefix = string_from_range(&chars, 0, chars.len() - 2);
                    crate::text::push_char(&mut prefix, '.');
                    proof {
                        reveal_strlit(".*");
                        assert(chars@.subrange(0, chars@.len() - 2) =~= name@.take(name@.len() - 2));
                    }
                    push_prefix_selection(&mut probes, prefix.as_str());
                } else {
                    match optional_probe(name) {
                        Some(info) => {
                            let ghost iv = info@;
                            probes.push(info);
                            proof {
                                assert(view_infos(probes@) =~= before + seq![iv]);
                            }
                        },
                        None => {
                            proof {
                                assert(before + Seq::<ProbeView>::empty() =~= before);
                            }
                        },
                    }
                }
                proof {
                    assert(start + names_selection(ns.take(i as int)) + name_selection(ns[i as int])
                        =~= start + names_selection(ns.take(i + 1)));
                }
                i = i + 1;
            }
            proof {
                assert(ns.take(names@.len() as int) =~= ns);
            }
        },
    }
    probes
}

/// A TypeScript declaration file (its path holds `d.ts`): not analysed.
pub fn is_declaration_file(path: &str) -> (r: bool)
    ensures
        r == contains_seq(path@, "d.ts"@),
{
    str_contains(path, "d.ts")
}

/// A file whose path says it is minified (it holds `.min`).
pub fn is_minified_path(path: &str) -> (r: bool)
    ensures
        r == contains_seq(path@, ".min"@),
{
    str_contains(path, ".min")
}

/// The parser a file is analysed with when none is given: TypeScript for
/// the `ts` extension, else the JavaScript default (`None`).
pub fn analyse_file_parser(extension: Option<&str>) -> (r: Option<FileParser>)
    ensures
        r == if extension matches Some(e) && e@ == "ts"@ {
            Some(FileParser::TypeScript)
        } else {
            None
        },
{
    match extension {
        Some(e) => if str_eq(e, "ts") {
            Some(FileParser::TypeScript)
        } else {
            None
        },
        None => None,
    }
}

/// The flags of an analysed file: `is-minified` is added for a minified
/// file, unless it is a one-line require.
pub fn mark_minified(flags: &mut IndexSet<String>, is_minified: bool)
    ensures
        name_set_items(*final(flags)) == if is_minified && !name_set_items(*old(flags)).contains(
            "oneline-require"@,
        ) {
            set_insert(name_set_items(*old(flags)), "is-minified"@)
        } else {
            name_set_items(*old(flags))
        },
{
    if !name_set_contains(flags, "oneline-require") && is_minified {
        let _ = name_set_insert(flags, to_string("is-minified"));
    }
}

/// The flags of an analysis: `oneline-require` is added when the program
/// is one exported require expression.
pub fn mark_oneline_require(flags: &mut IndexSet<String>, oneline_require: bool)
    ensures
        name_set_items(*final(flags)) == if oneline_require {
            set_insert(name_set_items(*old(flags)), "oneline-require"@)
        } else {
            name_set_items(*old(flags))
        },
{
    if oneline_require {
        let _ = name_set_insert(flags, to_string("oneline-require"));
    }
}

/// How an analyser is set up.
pub struct AstAnalyserOptions {
    /// Probes added to the default ones (or put in their place, with
    /// `skip_default_probes`).
    pub custom_probes: Vec<ProbeInfo>,
    pub skip_default_probes: bool,
    pub optional_warnings: OptionalWarnings,
    /// The collectable sets that every analysis fills.
    pub collectables: Vec<DefaultCollectableSet>,
    pub sensitivity: Sensitivity,
}

impl Default for AstAnalyserOptions {
    /// The default setup: the default probes, no optional warning, no
    /// collectable set, conservative.
    fn default() -> (r: AstAnalyserOptions)
        ensures
            r.custom_probes@.len() == 0,
            !r.skip_default_probes,
            r.optional_warnings is Disabled,
            r.collectables@.len() == 0,
            r.sensitivity == Sensitivity::Conservative,
    {
        AstAnalyserOptions {
            custom_probes: Vec::new(),
            skip_default_probes: false,
            optional_warnings: OptionalWarnings::Disabled,
            collectables: Vec::new(),
            sensitivity: Sensitivity::Conservative,
        }
    }
}

/// An analyser: its probe setup and the collectable sets its analyses fill.
pub struct AstAnalyser {
    pub custom_probes: Vec<ProbeInfo>,
    pub skip_default_probes: bool,
    pub optional_warnings: OptionalWarnings,
    pub sensitivity: Sensitivity,
    pub collectable_registry: CollectableSetRegistry,
}

impl AstAnalyser {
    /// An analyser with these options; the collectable sets are registered
    /// by type, a later set replacing an earlier one of the same type.
    pub fn new(options: AstAnalyserOptions) -> (r: AstAnalyser)
        ensures
            r.custom_probes == options.custom_probes,
            r.skip_default_probes == options.skip_default_probes,
            r.optional_warnings == options.optional_warnings,
            r.sensitivity == options.sensitivity,
            r.collectable_registry.spec_sets() == register_all(
                Seq::<(Seq<char>, DefaultCollectableSet)>::empty(),
                options.collectables@,
            ),
    {
        let AstAnalyserOptions {
            custom_probes,
            skip_default_probes,
            optional_warnings,
            collectables,
            sensitivity,
        } = options;
        AstAnalyser {
            custom_probes,
            skip_default_probes,
            optional_warnings,
            sensitivity,
            collectable_registry: CollectableSetRegistry::new(collectables),
        }
    }

    /// The probes an analysis runs, in order.
    pub fn probes(&self) -> (r: Vec<ProbeInfo>)
        ensures
            view_infos(r@) == spec_build_probes(
                view_infos(self.custom_probes@),
                self.skip_default_probes,
                self.optional_warnings,
            ),
    {
        build_probes(clone_infos(&self.custom_probes), self.skip_default_probes, &self.optional_warnings)
    }

    /// The collectable set of a type, when one is registered.
    pub fn get_collectable_set(&self, collectable_type: &str) -> (r: Option<&DefaultCollectableSet>)
        ensures
            match key_index(self.collectable_registry.spec_sets(), collectable_type@) {
                Some(i) => r == Some(&self.collectable_registry.spec_sets()[i].1),
                None => r is None,
            },
    {
        self.collectable_registry.get(collectable_type)
    }
}

impl Default for AstAnalyser {
    /// The analyser of the default options.
    fn default() -> (r: AstAnalyser)
        ensures
            r.custom_probes@.len() == 0,
            !r.skip_default_probes,
            r.optional_warnings is Disabled,
            r.sensitivity == Sensitivity::Conservative,
            r.collectable_registry.spec_sets().len() == 0,
    {
        AstAnalyser::new(AstAnalyserOptions::default())
    }
}

/// What an analysis of a source is told besides the source.
pub struct RuntimeOptions {
    /// The directory of the file, where there is one.
    pub location: Option<String>,
    pub remove_html_comments: bool,
    pub is_minified: bool,
    /// The parser to use in place of the JavaScript one.
    pub custom_parser: Option<FileParser>,
    pub package_name: Option<String>,
}

/// What an analysis finds.
pub struct Report {
    pub warnings: Vec<Warning>,
}

/// The source holds a character that can hide code from a reader.
pub open spec fn has_trojan_source(source: Seq<char>) -> bool {
    exists|i: int| 0 <= i < source.len() && crate::obfuscators::is_dangerous_char(#[trigger] source[i])
}

/// The warnings an analysis starts with: an `obfuscated-code` warning of
/// value `trojan-source` when the source holds a character that can hide
/// code.
pub open spec fn trojan_prefix(source: Seq<char>) -> Seq<WarningView> {
    if has_trojan_source(source) {
        seq![("obfuscated-code"@, Some("trojan-source"@), None::<crate::estree::location::SourceLocation>)]
    } else {
        Seq::empty()
    }
}

/// A source that holds one of the eleven bidirectional control characters,
/// anywhere, is warned of once, as obfuscated code of value `trojan-source`,
/// before anything the probes find.
pub proof fn lemma_bidi_control_is_warned(source: Seq<char>, i: int)
    requires
        0 <= i < source.len(),
        source[i] == '\u{202A}' || source[i] == '\u{202B}' || source[i] == '\u{202D}'
            || source[i] == '\u{202E}' || source[i] == '\u{2066}' || source[i] == '\u{2067}'
            || source[i] == '\u{2068}' || source[i] == '\u{2069}' || source[i] == '\u{200E}'
            || source[i] == '\u{200F}' || source[i] == '\u{061C}',
    ensures
        trojan_prefix(source) == seq![
            ("obfuscated-code"@, Some("trojan-source"@), None::<crate::estree::location::SourceLocation>),
        ],
{
    crate::obfuscators::lemma_bidi_controls_are_dangerous(source[i]);
    assert(crate::obfuscators::is_dangerous_char(source[i]));
    assert(has_trojan_source(source));
}

/// A source made of characters below U+061C (ASCII among them) is never
/// warned of as a trojan source.
pub proof fn lemma_low_source_not_warned(source: Seq<char>)
    requires
        forall|i: int| 0 <= i < source.len() ==> (#[trigger] source[i] as u32) < 0x061C,
    ensures
        trojan_prefix(source) == Seq::<WarningView>::empty(),
{
    assert forall|i: int| 0 <= i < source.len() implies !crate::obfuscators::is_dangerous_char(
        #[trigger] source[i],
    ) by {
        crate::obfuscators::lemma_bidi_controls_are_dangerous(source[i]);
    }
}

/// The default probes that run with behaviour here, in the order of the
/// default ones: the unsafe-callee probe, then the prototype-pollution one.
pub fn runnable_probes() -> (r: Vec<Box<dyn Probe>>) {
    let mut r: Vec<Box<dyn Probe>> = Vec::new();
    r.push(Box::new(crate::probes::is_unsafe_callee::IsUnsafeCallee));
    r.push(Box::new(crate::probes::is_prototype_pollution::IsPrototypePollution));
    r
}

impl AstAnalyser {
    /// The source made ready for the parser.
    pub fn prepare_source(&self, source: &str, remove_html_comments: bool) -> (r: String)
        ensures
            r@ == spec_prepare_source(source@, remove_html_comments),
    {
        prepare_source(source, remove_html_comments)
    }

    /// The report on a parsed source: first, when the source holds a
    /// character that can hide code, an `obfuscated-code` warning of value
    /// `trojan-source`; then what the probes find walking each statement of
    /// `body` in order, after the inlining pipeline (`lookup` resolves the
    /// names of traced calls).
    pub fn analyse_body(
        &self,
        source: &str,
        body: Vec<JsonValue>,
        probes: &Vec<Box<dyn Probe>>,
        lookup: &IdentifierLookup,
    ) -> (r: Report)
        ensures
            view_warnings(r.warnings@) == trojan_prefix(source@) + spec_walk_items(probes@, body@, lookup@),
    {
        let mut inline = Inline;
        let body = inline.walk(body);
        let mut warnings: Vec<Warning> = Vec::new();
        if crate::obfuscators::verify(source) {
            let w = Warning {
                kind: to_string("obfuscated-code"),
                value: Some(to_string("trojan-source")),
                location: None,
            };
            warnings.push(w);
            proof {
                assert(view_warnings(warnings@) =~= seq![warning_view(w)]);
            }
        } else {
            assert(view_warnings(warnings@) =~= Seq::<WarningView>::empty());
        }
        let ghost start = view_warnings(warnings@);
        assert(start == trojan_prefix(source@));
        assert(body@.take(0) =~= Seq::<JsonValue>::empty());
        assert(start + Seq::<WarningView>::empty() =~= start);
        let mut i: usize = 0;
        while i < body.len()
            invariant
                0 <= i <= body@.len(),
                view_warnings(warnings@) == start + spec_walk_items(probes@, body@.take(i as int), lookup@),
            decreases body.len() - i,
        {
            proof {
                assert(body@.take(i + 1).drop_last() =~= body@.take(i as int));
                assert(body@.take(i + 1).last() == body@[i as int]);
            }
            walk_ast(&body[i], probes, lookup, &mut warnings);
            proof {
                assert(view_warnings(warnings@) =~= start + spec_walk_items(probes@, body@.take(i + 1), lookup@));
            }
            i = i + 1;
        }
        assert(body@.take(i as int) =~= body@);
        Report { warnings }
    }
}

} // verus!
