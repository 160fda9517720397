//! The `isImportDeclaration` probe.

use vstd::prelude::*;

use crate::estree::types::{is_type, node_type, spec_node_type};
use crate::json::JsonValue;
use crate::probe::{opt_view, ProbeInfo};
use crate::probes::strings;
use crate::text::{str_eq, str_starts_with, to_string, view_strings};

verus! {

/// The `isImportDeclaration` probe.
pub struct IsImportDeclaration;

impl IsImportDeclaration {
    pub fn name(&self) -> (r: String)
        ensures
            r@ == "isImportDeclaration"@,
    {
        to_string("isImportDeclaration")
    }

    /// The ESTree node types the probe handles.
    pub fn node_types(&self) -> (r: Option<Vec<String>>)
        ensures
            match r {
                Some(v) => Some(view_strings(v@)),
                None => None::<Seq<Seq<char>>>,
            } == Some(seq!["ImportDeclaration"@, "ImportExpression"@]),
    {
        Some(strings(&["ImportDeclaration", "ImportExpression"]))
    }

    pub fn break_on_match(&self) -> (r: bool)
        ensures
            r == true,
    {
        true
    }

    pub fn break_group(&self) -> (r: Option<String>)
        ensures
            opt_view(r) == Some("import"@),
    {
        Some(to_string("import"))
    }

    /// What the runner needs to know of the probe.
    pub fn info(&self) -> (r: ProbeInfo)
        ensures
            r.name@ == "isImportDeclaration"@,
            match r.node_types {
                Some(v) => Some(view_strings(v@)),
                None => None::<Seq<Seq<char>>>,
            } == Some(seq!["ImportDeclaration"@, "ImportExpression"@]),
            r.break_on_match == true,
            opt_view(r.break_group) == Some("import"@),
    {
        ProbeInfo {
            name: self.name(),
            node_types: self.node_types(),
            break_on_match: self.break_on_match(),
            break_group: self.break_group(),
        }
    }
}

} // verus!

verus! {

/// Whether an import's source is a string literal.
pub open spec fn source_is_string_literal(node: JsonValue) -> bool {
    match node.spec_get("source"@) {
        Some(source) => source.spec_get_str("type"@) == Some("Literal"@) && source.spec_get(
            "value"@,
        ) matches Some(JsonValue::String(_, _)),
        None => false,
    }
}

/// The validator: an import declaration or expression whose source is a
/// string literal.
pub open spec fn spec_is_import(node: JsonValue) -> bool {
    (spec_node_type(node) == Some("ImportDeclaration"@) || spec_node_type(node) == Some(
        "ImportExpression"@,
    )) && source_is_string_literal(node)
}

/// The validator: an import declaration or expression whose source is a
/// string literal.
pub fn validate_node(node: &JsonValue) -> (r: bool)
    ensures
        r == spec_is_import(*node),
{
    let is_import = match node_type(node) {
        Some(t) => str_eq(t, "ImportDeclaration") || str_eq(t, "ImportExpression"),
        None => false,
    };
    if !is_import {
        return false;
    }
    match node.get("source") {
        Some(source) => {
            let is_literal = match source.get_str("type") {
                Some(t) => str_eq(t, "Literal"),
                None => false,
            };
            is_literal && match source.get("value") {
                Some(v) => v.is_string(),
                None => false,
            }
        },
        None => false,
    }
}

/// The string at `source.value`, "" where there is none.
pub open spec fn source_value(node: JsonValue) -> Seq<char> {
    match node.spec_get("source"@) {
        Some(source) => match source.spec_get_str("value"@) {
            Some(v) => v,
            None => Seq::empty(),
        },
        None => Seq::empty(),
    }
}

/// Whether an import source is one that runs or reads code: a
/// `data:text/javascript` URL or a `file:` URL.
pub open spec fn spec_is_suspicious_import(value: Seq<char>) -> bool {
    "data:text/javascript"@.is_prefix_of(value) || "file:"@.is_prefix_of(value)
}

/// What the probe records of an import: the dependency (its source), and
/// whether it also warns of an unsafe import.
pub fn import_outcome(node: &JsonValue) -> (r: (String, bool))
    ensures
        r.0@ == source_value(*node),
        r.1 == spec_is_suspicious_import(source_value(*node)),
{
    let value = match node.get("source") {
        Some(source) => match source.get_str("value") {
            Some(v) => v,
            None => "",
        },
        None => "",
    };
    proof {
        reveal_strlit("");
        assert(""@ =~= Seq::<char>::empty());
    }
    let suspicious = str_starts_with(value, "data:text/javascript") || str_starts_with(
        value,
        "file:",
    );
    (to_string(value), suspicious)
}

} // verus!
