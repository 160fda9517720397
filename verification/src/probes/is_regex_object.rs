//! The `is-regex-object` probe.

use vstd::prelude::*;

use crate::probe::{opt_view, ProbeInfo};
use crate::probes::strings;
use crate::text::{to_string, view_strings};
use crate::estree::types::{node_type, spec_node_type};
use crate::json::JsonValue;
use crate::text::str_eq;

verus! {

/// The `is-regex-object` probe.
pub struct IsRegexObject;

impl IsRegexObject {
    pub fn name(&self) -> (r: String)
        ensures
            r@ == "is-regex-object"@,
    {
        to_string("is-regex-object")
    }

    /// The ESTree node types the probe handles.
    pub fn node_types(&self) -> (r: Option<Vec<String>>)
        ensures
            match r {
                Some(v) => Some(view_strings(v@)),
                None => None::<Seq<Seq<char>>>,
            } == Some(seq!["NewExpression"@]),
    {
        Some(strings(&["NewExpression"]))
    }

    pub fn break_on_match(&self) -> (r: bool)
        ensures
            r == false,
    {
        false
    }

    pub fn break_group(&self) -> (r: Option<String>)
        ensures
            opt_view(r) == None::<Seq<char>>,
    {
        None
    }

    /// What the runner needs to know of the probe.
    pub fn info(&self) -> (r: ProbeInfo)
        ensures
            r.name@ == "is-regex-object"@,
            match r.node_types {
                Some(v) => Some(view_strings(v@)),
                None => None::<Seq<Seq<char>>>,
            } == Some(seq!["NewExpression"@]),
            r.break_on_match == false,
            opt_view(r.break_group) == None::<Seq<char>>,
    {
        ProbeInfo {
            name: self.name(),
            node_types: self.node_types(),
            break_on_match: self.break_on_match(),
            break_group: self.break_group(),
        }
    }
}

} // verus!

verus! {

/// `new RegExp(...)`: a `NewExpression` whose callee is the identifier
/// `RegExp`.
pub open spec fn spec_is_regex_constructor(node: JsonValue) -> bool {
    &&& spec_node_type(node) == Some("NewExpression"@)
    &&& (node.spec_get("callee"@) matches Some(callee) && spec_node_type(callee) == Some("Identifier"@)
        && callee.spec_get_str("name"@) == Some("RegExp"@))
}

/// The text of a string value, or the empty text.
pub open spec fn str_or_empty(v: Option<Seq<char>>) -> Seq<char> {
    match v {
        Some(s) => s,
        None => Seq::empty(),
    }
}

/// The pattern of a regex literal node: its `regex.pattern`, or empty.
pub open spec fn spec_regex_literal_pattern(node: JsonValue) -> Seq<char> {
    match node.spec_get("regex"@) {
        Some(regex) => str_or_empty(regex.spec_get_str("pattern"@)),
        None => Seq::empty(),
    }
}

/// The pattern given to `new RegExp`: that of a regex literal first
/// argument, else the first argument's string `value` (or empty); none
/// without arguments.
pub open spec fn spec_constructor_pattern(node: JsonValue) -> Option<Seq<char>> {
    match node.spec_get("arguments"@) {
        Some(args) => match args.spec_at(0) {
            Some(arg) => Some(
                if spec_node_type(arg) == Some("Literal"@) && arg.spec_get("regex"@) is Some {
                    spec_regex_literal_pattern(arg)
                } else {
                    str_or_empty(arg.spec_get_str("value"@))
                },
            ),
            None => None,
        },
        None => None,
    }
}

/// `new RegExp(...)`.
pub fn is_regex_constructor(node: &JsonValue) -> (r: bool)
    ensures
        r == spec_is_regex_constructor(*node),
{
    let is_new = match node_type(node) {
        Some(t) => str_eq(t, "NewExpression"),
        None => false,
    };
    if !is_new {
        return false;
    }
    match node.get("callee") {
        Some(callee) => {
            let is_identifier = match node_type(callee) {
                Some(t) => str_eq(t, "Identifier"),
                None => false,
            };
            is_identifier && match callee.get_str("name") {
                Some(name) => str_eq(name, "RegExp"),
                None => false,
            }
        },
        None => false,
    }
}

/// The `pattern` of a regex literal node, or empty.
pub fn regex_literal_pattern(node: &JsonValue) -> (r: String)
    ensures
        r@ == spec_regex_literal_pattern(*node),
{
    match node.get("regex") {
        Some(regex) => match regex.get_str("pattern") {
            Some(p) => to_string(p),
            None => String::new(),
        },
        None => String::new(),
    }
}

impl IsRegexObject {
    /// `new RegExp(...)` with at least one argument.
    pub fn validate_node(&self, node: &JsonValue) -> (r: bool)
        ensures
            r == (spec_is_regex_constructor(*node) && (node.spec_get_array("arguments"@) matches Some(
                args,
            ) && args.len() > 0)),
    {
        let has_arguments = match node.get_array("arguments") {
            Some(args) => args.len() > 0,
            None => false,
        };
        is_regex_constructor(node) && has_arguments
    }

    /// The pattern whose safety the probe checks (`unsafe-regex` when it is
    /// not safe); none without arguments.
    pub fn regex_pattern(&self, node: &JsonValue) -> (r: Option<String>)
        ensures
            opt_view(r) == spec_constructor_pattern(*node),
    {
        let arg = match node.get("arguments") {
            Some(args) => match args.at(0) {
                Some(a) => a,
                None => {
                    return None;
                },
            },
            None => {
                return None;
            },
        };
        let is_literal = match node_type(arg) {
            Some(t) => str_eq(t, "Literal"),
            None => false,
        };
        if is_literal && arg.get("regex").is_some() {
            Some(regex_literal_pattern(arg))
        } else {
            match arg.get_str("value") {
                Some(v) => Some(to_string(v)),
                None => Some(String::new()),
            }
        }
    }
}

} // verus!
