//! The `isBinaryExpression` probe.

use vstd::prelude::*;

use crate::estree::types::{is_type, node_type, spec_is_type};
use crate::json::JsonValue;
use crate::probe::{opt_view, ProbeInfo};
use crate::probes::strings;
use crate::text::{to_string, view_strings};

verus! {

/// The `isBinaryExpression` probe.
pub struct IsBinaryExpression;

impl IsBinaryExpression {
    pub fn name(&self) -> (r: String)
        ensures
            r@ == "isBinaryExpression"@,
    {
        to_string("isBinaryExpression")
    }

    /// The ESTree node types the probe handles.
    pub fn node_types(&self) -> (r: Option<Vec<String>>)
        ensures
            match r {
                Some(v) => Some(view_strings(v@)),
                None => None::<Seq<Seq<char>>>,
            } == Some(seq!["BinaryExpression"@]),
    {
        Some(strings(&["BinaryExpression"]))
    }

    pub fn break_on_match(&self) -> (r: bool)
        ensures
            r == false,
    {
        false
    }

    pub fn break_group(&self) -> (r: Option<String>)
        ensures
            opt_view(r) == None::<Seq<char>>,
    {
        None
    }

    /// What the runner needs to know of the probe.
    pub fn info(&self) -> (r: ProbeInfo)
        ensures
            r.name@ == "isBinaryExpression"@,
            match r.node_types {
                Some(v) => Some(view_strings(v@)),
                None => None::<Seq<Seq<char>>>,
            } == Some(seq!["BinaryExpression"@]),
            r.break_on_match == false,
            opt_view(r.break_group) == None::<Seq<char>>,
    {
        ProbeInfo {
            name: self.name(),
            node_types: self.node_types(),
            break_on_match: self.break_on_match(),
            break_group: self.break_group(),
        }
    }
}

} // verus!

verus! {

/// How many binary expressions `expr` is made of, itself included, going
/// down through binary operands only.
pub open spec fn binary_size(expr: JsonValue) -> nat
    decreases expr,
{
    let l = match expr.spec_get("left"@) {
        Some(left) => {
            proof {
                expr.lemma_get_decreases("left"@);
            }
            if spec_is_type(left, "BinaryExpression"@) {
                binary_size(left)
            } else {
                0
            }
        },
        None => 0,
    };
    let r = match expr.spec_get("right"@) {
        Some(right) => {
            proof {
                expr.lemma_get_decreases("right"@);
            }
            if spec_is_type(right, "BinaryExpression"@) {
                binary_size(right)
            } else {
                0
            }
        },
        None => 0,
    };
    1 + l + r
}

/// Whether a child is a node of type `ty`.
pub open spec fn child_is(expr: JsonValue, key: Seq<char>, ty: Seq<char>) -> bool {
    match expr.spec_get(key) {
        Some(c) => spec_is_type(c, ty),
        None => false,
    }
}

/// The walk over nested binary expressions from `expr` at `level`: the
/// deepest level reached (one more for each nested binary expression) and
/// whether a unary expression is an operand anywhere on the way.
pub open spec fn spec_walk_binary(expr: JsonValue, level: int) -> (int, bool)
    decreases expr,
{
    let has_unary = child_is(expr, "left"@, "UnaryExpression"@) || child_is(
        expr,
        "right"@,
        "UnaryExpression"@,
    );
    let current = if child_is(expr, "left"@, "BinaryExpression"@) || child_is(
        expr,
        "right"@,
        "BinaryExpression"@,
    ) {
        level + 1
    } else {
        level
    };
    let after_left = match expr.spec_get("left"@) {
        Some(left) => if spec_is_type(left, "BinaryExpression"@) {
            proof {
                expr.lemma_get_decreases("left"@);
            }
            let d = spec_walk_binary(left, current);
            (if d.0 > current {
                d.0
            } else {
                current
            }, has_unary || d.1)
        } else {
            (current, has_unary)
        },
        None => (current, has_unary),
    };
    match expr.spec_get("right"@) {
        Some(right) => if spec_is_type(right, "BinaryExpression"@) {
            proof {
                expr.lemma_get_decreases("right"@);
            }
            let d = spec_walk_binary(right, after_left.0);
            (if d.0 > after_left.0 {
                d.0
            } else {
                after_left.0
            }, after_left.1 || d.1)
        } else {
            after_left
        },
        None => after_left,
    }
}

pub proof fn lemma_walk_binary_bound(expr: JsonValue, level: int)
    ensures
        level <= spec_walk_binary(expr, level).0 <= level + binary_size(expr),
    decreases expr,
{
    let current = if child_is(expr, "left"@, "BinaryExpression"@) || child_is(
        expr,
        "right"@,
        "BinaryExpression"@,
    ) {
        level + 1
    } else {
        level
    };
    let after_left_level = match expr.spec_get("left"@) {
        Some(left) => if spec_is_type(left, "BinaryExpression"@) {
            expr.lemma_get_decreases("left"@);
            lemma_walk_binary_bound(left, current);
            let d = spec_walk_binary(left, current);
            if d.0 > current {
                d.0
            } else {
                current
            }
        } else {
            current
        },
        None => current,
    };
    match expr.spec_get("right"@) {
        Some(right) => if spec_is_type(right, "BinaryExpression"@) {
            expr.lemma_get_decreases("right"@);
            lemma_walk_binary_bound(right, after_left_level);
        },
        None => {},
    }
}

/// Whether the child at `key` is a node of type `ty`.
fn child_is_exec(expr: &JsonValue, key: &str, ty: &str) -> (r: bool)
    ensures
        r == child_is(*expr, key@, ty@),
{
    match expr.get(key) {
        Some(c) => is_type(c, ty),
        None => false,
    }
}

/// The walk over nested binary expressions: the deepest level reached and whether a unary
/// expression is an operand on the way.
pub fn walk_binary_expression(expr: &JsonValue, level: u32) -> (r: (u32, bool))
    requires
        level + binary_size(*expr) <= u32::MAX,
    ensures
        (r.0 as int, r.1) == spec_walk_binary(*expr, level as int),
    decreases expr,
{
    proof {
        lemma_walk_binary_bound(*expr, level as int);
    }
    let mut has_unary_expression = child_is_exec(expr, "left", "UnaryExpression")
        || child_is_exec(expr, "right", "UnaryExpression");
    let mut current_level = if child_is_exec(expr, "left", "BinaryExpression") || child_is_exec(
        expr,
        "right",
        "BinaryExpression",
    ) {
        level + 1
    } else {
        level
    };
    match expr.get("left") {
        Some(left) => {
            if is_type(left, "BinaryExpression") {
                proof {
                    expr.lemma_get_decreases("left"@);
                    lemma_walk_binary_bound(*left, current_level as int);
                }
                let (deep_level, deep_has_unary) = walk_binary_expression(left, current_level);
                if deep_level > current_level {
                    current_level = deep_level;
                }
                if !has_unary_expression && deep_has_unary {
                    has_unary_expression = true;
                }
            }
        },
        None => {},
    }
    match expr.get("right") {
        Some(right) => {
            if is_type(right, "BinaryExpression") {
                proof {
                    expr.lemma_get_decreases("right"@);
                    lemma_walk_binary_bound(*right, current_level as int);
                }
                let (deep_level, deep_has_unary) = walk_binary_expression(right, current_level);
                if deep_level > current_level {
                    current_level = deep_level;
                }
                if !has_unary_expression && deep_has_unary {
                    has_unary_expression = true;
                }
            }
        },
        None => {},
    }
    (current_level, has_unary_expression)
}

/// Whether a binary expression looks obfuscated: it nests at least three
/// levels deep and has a unary operand on the way.
pub open spec fn spec_is_deep_binary(node: JsonValue) -> bool {
    spec_walk_binary(node, 1).0 >= 3 && spec_walk_binary(node, 1).1
}

/// Whether a binary expression counts as a deep one for the deobfuscator.
pub fn is_deep_binary_expression(node: &JsonValue) -> (r: bool)
    requires
        binary_size(*node) < u32::MAX,
    ensures
        r == spec_is_deep_binary(*node),
{
    let (deepness, has_unary) = walk_binary_expression(node, 1);
    deepness >= 3 && has_unary
}

} // verus!
