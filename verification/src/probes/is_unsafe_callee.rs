//! The `isUnsafeCallee` probe.

use vstd::prelude::*;

use crate::estree::functions::{call_expression_identifier, spec_call_identifier};
use crate::estree::types::{is_call_expression, no_lookup, spec_is_type};
use crate::json::JsonValue;
use crate::probe::{opt_view, ProbeInfo};
use crate::probes::strings;
use crate::text::{str_eq, to_string, view_strings};

verus! {

/// The `isUnsafeCallee` probe.
pub struct IsUnsafeCallee;

impl IsUnsafeCallee {
    pub fn name(&self) -> (r: String)
        ensures
            r@ == "isUnsafeCallee"@,
    {
        to_string("isUnsafeCallee")
    }

    /// The ESTree node types the probe handles.
    pub fn node_types(&self) -> (r: Option<Vec<String>>)
        ensures
            match r {
                Some(v) => Some(view_strings(v@)),
                None => None::<Seq<Seq<char>>>,
            } == Some(seq!["CallExpression"@]),
    {
        Some(strings(&["CallExpression"]))
    }

    pub fn break_on_match(&self) -> (r: bool)
        ensures
            r == false,
    {
        false
    }

    pub fn break_group(&self) -> (r: Option<String>)
        ensures
            opt_view(r) == None::<Seq<char>>,
    {
        None
    }

    /// What the runner needs to know of the probe.
    pub fn info(&self) -> (r: ProbeInfo)
        ensures
            r.name@ == "isUnsafeCallee"@,
            match r.node_types {
                Some(v) => Some(view_strings(v@)),
                None => None::<Seq<Seq<char>>>,
            } == Some(seq!["CallExpression"@]),
            r.break_on_match == false,
            opt_view(r.break_group) == None::<Seq<char>>,
    {
        ProbeInfo {
            name: self.name(),
            node_types: self.node_types(),
            break_on_match: self.break_on_match(),
            break_group: self.break_group(),
        }
    }
}

} // verus!

verus! {

/// Whether what a call calls is itself a call.
pub open spec fn callee_is_call(node: JsonValue) -> bool {
    match node.spec_get("callee"@) {
        Some(callee) => spec_is_type(callee, "CallExpression"@),
        None => false,
    }
}

/// The unsafe callee of a call: `eval` when it calls `eval`; `Function`
/// when the traced name of the call is `Function` and what it calls is
/// itself a call (`Function("return this")()`).
pub open spec fn spec_unsafe_callee(node: JsonValue, traced_identifier: Option<Seq<char>>) -> Option<
    Seq<char>,
> {
    if !spec_is_type(node, "CallExpression"@) {
        None
    } else if spec_call_identifier(node, no_lookup(), true) == Some("eval"@) {
        Some("eval"@)
    } else if traced_identifier == Some("Function"@) && callee_is_call(node) {
        Some("Function"@)
    } else {
        None
    }
}

/// `Function(...)()`: a call that the tracer resolved to `Function`, whose
/// callee is itself a call, and which does not call `eval`, is an unsafe
/// callee named `Function`.
pub proof fn lemma_function_constructor_call(node: JsonValue, callee: JsonValue)
    requires
        node.spec_get_str("type"@) == Some("CallExpression"@),
        node.spec_get("callee"@) == Some(callee),
        callee.spec_get_str("type"@) == Some("CallExpression"@),
        spec_call_identifier(node, no_lookup(), true) != Some("eval"@),
    ensures
        spec_unsafe_callee(node, Some("Function"@)) == Some("Function"@),
{
}

/// `eval(...)`: a call of `eval` is an unsafe callee named `eval`, whatever
/// the tracer resolved it to.
pub proof fn lemma_eval_call(node: JsonValue, traced_identifier: Option<Seq<char>>)
    requires
        node.spec_get_str("type"@) == Some("CallExpression"@),
        spec_call_identifier(node, no_lookup(), true) == Some("eval"@),
    ensures
        spec_unsafe_callee(node, traced_identifier) == Some("eval"@),
{
}

/// Only calls are unsafe callees, and only under the names `eval` and
/// `Function`; a call not resolved to `Function` that does not call `eval`
/// is none.
pub proof fn lemma_unsafe_callee_names(node: JsonValue, traced_identifier: Option<Seq<char>>)
    ensures
        spec_unsafe_callee(node, traced_identifier) matches Some(name) ==> (name == "eval"@
            || name == "Function"@) && node.spec_get_str("type"@) == Some("CallExpression"@),
        spec_call_identifier(node, no_lookup(), true) != Some("eval"@) && traced_identifier
            != Some("Function"@) ==> spec_unsafe_callee(node, traced_identifier) is None,
{
}

/// `eval(...)` or `Function(...)()`: the unsafe callee's name, where
/// `traced_identifier` is the name the tracer resolved the call to.
pub fn is_unsafe_callee(node: &JsonValue, traced_identifier: Option<&str>) -> (r: Option<String>)
    ensures
        opt_view(r) == spec_unsafe_callee(
            *node,
            match traced_identifier {
                Some(t) => Some(t@),
                None => None,
            },
        ),
{
    if !is_call_expression(node) {
        return None;
    }
    match call_expression_identifier(node) {
        Some(id) => {
            if str_eq(id.as_str(), "eval") {
                return Some(to_string("eval"));
            }
        },
        None => {},
    }
    let is_function = match traced_identifier {
        Some(t) => str_eq(t, "Function"),
        None => false,
    };
    if is_function {
        match node.get("callee") {
            Some(callee) => {
                if is_call_expression(callee) {
                    return Some(to_string("Function"));
                }
            },
            None => {},
        }
    }
    None
}

/// The string at `callee.arguments[0].value`.
pub open spec fn callee_first_argument_value(node: JsonValue) -> Option<Seq<char>> {
    match node.spec_get("callee"@) {
        Some(callee) => match callee.spec_get("arguments"@) {
            Some(args) => match args.spec_at(0) {
                Some(first) => first.spec_get_str("value"@),
                None => None,
            },
            None => None,
        },
        None => None,
    }
}

/// Whether the probe warns of the unsafe callee it found: always, except
/// for `Function("return this")()`.
pub fn unsafe_callee_warns(node: &JsonValue, callee_name: &str) -> (r: bool)
    ensures
        r == !(callee_name@ == "Function"@ && callee_first_argument_value(*node) == Some(
            "return this"@,
        )),
{
    if !str_eq(callee_name, "Function") {
        return true;
    }
    let value = match node.get("callee") {
        Some(callee) => match callee.get("arguments") {
            Some(args) => match args.at(0) {
                Some(first) => first.get_str("value"),
                None => None,
            },
            None => None,
        },
        None => None,
    };
    match value {
        Some(v) => !str_eq(v, "return this"),
        None => true,
    }
}

} // verus!
