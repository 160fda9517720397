//! The `isPrototypePollution` probe.

use vstd::prelude::*;

use crate::estree::functions::{get_member_expression_identifier, spec_member_parts};
use crate::estree::types::{is_member_expression, is_type, no_lookup, spec_is_type, IdentifierLookup};
use crate::json::JsonValue;
use crate::probe::{opt_view, ProbeInfo, ProbeReturn};
use crate::probes::strings;
use crate::text::{join, join_seq, str_eq, to_string, view_strings};

verus! {

/// The `isPrototypePollution` probe.
pub struct IsPrototypePollution;

impl IsPrototypePollution {
    pub fn name(&self) -> (r: String)
        ensures
            r@ == "isPrototypePollution"@,
    {
        to_string("isPrototypePollution")
    }

    /// The ESTree node types the probe handles.
    pub fn node_types(&self) -> (r: Option<Vec<String>>)
        ensures
            match r {
                Some(v) => Some(view_strings(v@)),
                None => None::<Seq<Seq<char>>>,
            } == Some(seq!["Literal"@, "MemberExpression"@]),
    {
        Some(strings(&["Literal", "MemberExpression"]))
    }

    pub fn break_on_match(&self) -> (r: bool)
        ensures
            r == false,
    {
        false
    }

    pub fn break_group(&self) -> (r: Option<String>)
        ensures
            opt_view(r) == None::<Seq<char>>,
    {
        None
    }

    /// What the runner needs to know of the probe.
    pub fn info(&self) -> (r: ProbeInfo)
        ensures
            r.name@ == "isPrototypePollution"@,
            match r.node_types {
                Some(v) => Some(view_strings(v@)),
                None => None::<Seq<Seq<char>>>,
            } == Some(seq!["Literal"@, "MemberExpression"@]),
            r.break_on_match == false,
            opt_view(r.break_group) == None::<Seq<char>>,
    {
        ProbeInfo {
            name: self.name(),
            node_types: self.node_types(),
            break_on_match: self.break_on_match(),
            break_group: self.break_group(),
        }
    }
}

} // verus!

verus! {

/// What the probe finds on a node: `literal` for a `"__proto__"` string
/// literal, the dotted member path for a member expression that ends in
/// `__proto__`.
pub open spec fn spec_pollution(node: JsonValue) -> Option<Seq<char>> {
    if spec_is_type(node, "Literal"@) && node.spec_get_str("value"@) == Some("__proto__"@) {
        Some("literal"@)
    } else if spec_is_type(node, "MemberExpression"@) {
        let parts = spec_member_parts(node, no_lookup());
        if parts.len() > 0 && parts.last() == "__proto__"@ {
            Some(join_seq(parts, "."@))
        } else {
            None
        }
    } else {
        None
    }
}

/// The validator: `literal` for a `"__proto__"` string literal, the dotted
/// member path for a member expression that ends in `__proto__`.
pub fn validate_node(node: &JsonValue) -> (r: Option<String>)
    ensures
        opt_view(r) == spec_pollution(*node),
{
    if is_type(node, "Literal") {
        match node.get_str("value") {
            Some(v) => {
                if str_eq(v, "__proto__") {
                    return Some(to_string("literal"));
                }
            },
            None => {},
        }
    }
    if is_member_expression(node) {
        let parts = get_member_expression_identifier(node, &IdentifierLookup::noop());
        if parts.len() > 0 && str_eq(parts[parts.len() - 1].as_str(), "__proto__") {
            return Some(join(&parts, "."));
        }
    }
    None
}

/// What the probe reports for what its validator found, and its answer:
/// the `__proto__` literal is reported as `__proto__` and the walk goes
/// on; a member path is reported as it is and its children are skipped.
pub fn pollution_outcome(data: &str) -> (r: (String, ProbeReturn))
    ensures
        data@ == "literal"@ ==> r.0@ == "__proto__"@ && r.1 == ProbeReturn::Matched,
        data@ != "literal"@ ==> r.0@ == data@ && r.1 == ProbeReturn::Skip,
{
    if str_eq(data, "literal") {
        (to_string("__proto__"), ProbeReturn::Matched)
    } else {
        (to_string(data), ProbeReturn::Skip)
    }
}

} // verus!
