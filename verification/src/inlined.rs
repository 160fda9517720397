//! Inlined calls, constructions and requires, split into a declaration and
//! a rebuilt expression. No pattern is recognised yet: `split` finds none.

use vstd::prelude::*;

use crate::json::JsonValue;

verus! {

/// A node split into a virtual declaration and an optional rebuilt
/// expression.
pub struct SplitResult {
    pub virtual_declaration: JsonValue,
    pub rebuild_expression: Option<JsonValue>,
}

pub struct InlinedCallExpression;

impl InlinedCallExpression {
    pub fn split(node: &JsonValue) -> (r: Option<SplitResult>)
        ensures
            r is None,
    {
        None
    }
}

pub struct InlinedNew;

impl InlinedNew {
    pub fn split(node: &JsonValue) -> (r: Option<SplitResult>)
        ensures
            r is None,
    {
        None
    }
}

pub struct InlinedRequire;

impl InlinedRequire {
    pub fn split(node: &JsonValue) -> (r: Option<SplitResult>)
        ensures
            r is None,
    {
        None
    }
}

} // verus!
