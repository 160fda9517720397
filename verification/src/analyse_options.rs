//! The options of an analysis, as given in a JSON object:
//! `{ "optionalWarnings": true | ["log-usage", ...], "sensitivity":
//! "aggressive", "removeHTMLComments": true, "isMinified": false,
//! "packageName": "..." }`.

use vstd::prelude::*;

use crate::ast_analyser::{AstAnalyser, AstAnalyserOptions, OptionalWarnings};
use crate::json::JsonValue;
use crate::probe::{opt_view, Sensitivity};
use crate::text::{str_eq, to_string, view_strings};

verus! {

/// The options read from the JSON object.
pub struct AnalyseOptions {
    pub optional_warnings: OptionalWarnings,
    pub sensitivity: Sensitivity,
    pub remove_html_comments: bool,
    pub is_minified: bool,
    pub package_name: Option<String>,
}

/// The strings among the items, in order.
pub open spec fn string_items(items: Seq<JsonValue>) -> Seq<Seq<char>>
    decreases items.len(),
{
    if items.len() == 0 {
        Seq::empty()
    } else {
        let rest = string_items(items.drop_last());
        match items.last().spec_as_str() {
            Some(s) => rest.push(s),
            None => rest,
        }
    }
}

/// The optional warnings the object asks for: all of them for `true`, the
/// names listed for an array (its items that are strings), none otherwise.
pub open spec fn spec_optional_warnings(options: JsonValue, r: OptionalWarnings) -> bool {
    match options.spec_get("optionalWarnings"@) {
        Some(JsonValue::Bool(true)) => r is All,
        Some(JsonValue::Array(items)) => r matches OptionalWarnings::Names(names) && view_strings(names@)
            == string_items(items@),
        _ => r is Disabled,
    }
}

/// A flag of the object: its boolean value, `false` when absent or not a
/// boolean.
pub open spec fn spec_flag(options: JsonValue, key: Seq<char>) -> bool {
    match options.spec_get(key) {
        Some(JsonValue::Bool(b)) => b,
        _ => false,
    }
}

fn flag(options: &JsonValue, key: &str) -> (r: bool)
    ensures
        r == spec_flag(*options, key@),
{
    match options.get(key) {
        Some(v) => match v.as_bool() {
            Some(b) => b,
            None => false,
        },
        None => false,
    }
}

/// The options of an analysis read from a JSON value (any value that is
/// not an object gives the defaults).
pub fn analyse_options(options: &JsonValue) -> (r: AnalyseOptions)
    ensures
        spec_optional_warnings(*options, r.optional_warnings),
        r.sensitivity == if options.spec_get_str("sensitivity"@) == Some("aggressive"@) {
            Sensitivity::Aggressive
        } else {
            Sensitivity::Conservative
        },
        r.remove_html_comments == spec_flag(*options, "removeHTMLComments"@),
        r.is_minified == spec_flag(*options, "isMinified"@),
        opt_view(r.package_name) == options.spec_get_str("packageName"@),
{
    let optional_warnings = match options.get("optionalWarnings") {
        Some(JsonValue::Bool(true)) => OptionalWarnings::All,
        Some(JsonValue::Array(items)) => {
            let mut names: Vec<String> = Vec::new();
            let mut i: usize = 0;
            while i < items.len()
                invariant
                    0 <= i <= items@.len(),
                    view_strings(names@) == string_items(items@.take(i as int)),
                decreases items.len() - i,
            {
                assert(items@.take(i + 1).drop_last() =~= items@.take(i as int));
                match items[i].as_str() {
                    Some(s) => {
                        names.push(to_string(s));
                        assert(view_strings(names@) =~= string_items(items@.take(i + 1)));
                    },
                    None => {},
                }
                i = i + 1;
            }
            assert(items@.take(items@.len() as int) =~= items@);
            OptionalWarnings::Names(names)
        },
        _ => OptionalWarnings::Disabled,
    };
    let sensitivity = match options.get_str("sensitivity") {
        Some(s) => if str_eq(s, "aggressive") {
            Sensitivity::Aggressive
        } else {
            Sensitivity::Conservative
        },
        None => Sensitivity::Conservative,
    };
    let package_name = match options.get_str("packageName") {
        Some(p) => Some(to_string(p)),
        None => None,
    };
    AnalyseOptions {
        optional_warnings,
        sensitivity,
        remove_html_comments: flag(options, "removeHTMLComments"),
        is_minified: flag(options, "isMinified"),
        package_name,
    }
}

impl AnalyseOptions {
    /// The analyser these options ask for: the default one, with their
    /// optional warnings and sensitivity.
    pub fn into_analyser(self) -> (r: AstAnalyser)
        ensures
            r.custom_probes@.len() == 0,
            !r.skip_default_probes,
            r.optional_warnings == self.optional_warnings,
            r.sensitivity == self.sensitivity,
            r.collectable_registry.spec_sets().len() == 0,
    {
        let mut setup = AstAnalyserOptions::default();
        setup.optional_warnings = self.optional_warnings;
        setup.sensitivity = self.sensitivity;
        AstAnalyser::new(setup)
    }
}

} // verus!
