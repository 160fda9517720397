//! The `is-literal-regex` probe.

use vstd::prelude::*;

use crate::probe::{opt_view, ProbeInfo};
use crate::probes::strings;
use crate::text::{to_string, view_strings};
use crate::estree::types::spec_node_type;
use crate::json::JsonValue;
use crate::probes::is_regex_object::{regex_literal_pattern, spec_regex_literal_pattern};
use crate::text::str_eq;

verus! {

/// The `is-literal-regex` probe.
pub struct IsLiteralRegex;

impl IsLiteralRegex {
    pub fn name(&self) -> (r: String)
        ensures
            r@ == "is-literal-regex"@,
    {
        to_string("is-literal-regex")
    }

    /// The ESTree node types the probe handles.
    pub fn node_types(&self) -> (r: Option<Vec<String>>)
        ensures
            match r {
                Some(v) => Some(view_strings(v@)),
                None => None::<Seq<Seq<char>>>,
            } == Some(seq!["Literal"@]),
    {
        Some(strings(&["Literal"]))
    }

    pub fn break_on_match(&self) -> (r: bool)
        ensures
            r == false,
    {
        false
    }

    pub fn break_group(&self) -> (r: Option<String>)
        ensures
            opt_view(r) == None::<Seq<char>>,
    {
        None
    }

    /// What the runner needs to know of the probe.
    pub fn info(&self) -> (r: ProbeInfo)
        ensures
            r.name@ == "is-literal-regex"@,
            match r.node_types {
                Some(v) => Some(view_strings(v@)),
                None => None::<Seq<Seq<char>>>,
            } == Some(seq!["Literal"@]),
            r.break_on_match == false,
            opt_view(r.break_group) == None::<Seq<char>>,
    {
        ProbeInfo {
            name: self.name(),
            node_types: self.node_types(),
            break_on_match: self.break_on_match(),
            break_group: self.break_group(),
        }
    }
}

} // verus!

verus! {

impl IsLiteralRegex {
    /// A regex literal: a `Literal` node with a `regex` field.
    pub fn validate_node(&self, node: &JsonValue) -> (r: bool)
        ensures
            r == (node.spec_get_str("type"@) == Some("Literal"@) && node.spec_get("regex"@) is Some),
    {
        let is_literal = match node.get_str("type") {
            Some(t) => str_eq(t, "Literal"),
            None => false,
        };
        is_literal && node.get("regex").is_some()
    }

    /// The pattern whose safety the probe checks.
    pub fn regex_pattern(&self, node: &JsonValue) -> (r: String)
        ensures
            r@ == spec_regex_literal_pattern(*node),
    {
        regex_literal_pattern(node)
    }
}

} // verus!
