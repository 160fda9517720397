//! Helpers of the cryptography probes: the arguments of the digest of a
//! hash chain, and the string a node stands for.

use vstd::prelude::*;

use crate::estree::functions::{get_member_call_expression, spec_is_member_call};
use crate::estree::types::{identifier_name, literal_str, spec_identifier_name, spec_literal_str, IdentifierLookup, LookupFn};
use crate::json::JsonValue;
use crate::probe::opt_view;
use crate::text::to_string;

verus! {

/// The arguments of the digest that a hash chain ends in: those of a
/// `.digest(...)` call; for `.digest().toString(...)`, those of the digest
/// unless it has none, then those of `toString`.
pub open spec fn spec_digest_arguments(hash_node: JsonValue) -> Option<Seq<JsonValue>> {
    if spec_is_member_call(hash_node, "digest"@) {
        hash_node.spec_get_array("arguments"@)
    } else if spec_is_member_call(hash_node, "toString"@) {
        match hash_node.spec_get("callee"@) {
            Some(callee) => match callee.spec_get("object"@) {
                Some(inner) => if spec_is_member_call(inner, "digest"@) {
                    match inner.spec_get_array("arguments"@) {
                        Some(inner_args) => if inner_args.len() == 0 {
                            hash_node.spec_get_array("arguments"@)
                        } else {
                            Some(inner_args)
                        },
                        None => None,
                    }
                } else {
                    None
                },
                None => None,
            },
            None => None,
        }
    } else {
        None
    }
}

/// The arguments of the digest that a hash chain ends in.
pub fn resolve_digest_call(hash_node: Option<&JsonValue>) -> (r: Option<&Vec<JsonValue>>)
    ensures
        match hash_node {
            Some(h) => match r {
                Some(args) => spec_digest_arguments(*h) == Some(args@),
                None => spec_digest_arguments(*h) is None,
            },
            None => r is None,
        },
{
    let h = match hash_node {
        Some(h) => h,
        None => {
            return None;
        },
    };
    match get_member_call_expression(h, "digest") {
        Some(digest_call) => {
            return digest_call.get_array("arguments");
        },
        None => {},
    }
    let to_string_call = match get_member_call_expression(h, "toString") {
        Some(c) => c,
        None => {
            return None;
        },
    };
    let inner = match to_string_call.get("callee") {
        Some(callee) => match callee.get("object") {
            Some(o) => o,
            None => {
                return None;
            },
        },
        None => {
            return None;
        },
    };
    let inner_digest_call = match get_member_call_expression(inner, "digest") {
        Some(c) => c,
        None => {
            return None;
        },
    };
    let inner_arguments = match inner_digest_call.get_array("arguments") {
        Some(a) => a,
        None => {
            return None;
        },
    };
    if inner_arguments.len() == 0 {
        to_string_call.get_array("arguments")
    } else {
        Some(inner_arguments)
    }
}

/// The string a node stands for: a literal's string, else the value of an
/// identifier bound to a string literal (`literals` maps those names to
/// their values).
pub open spec fn spec_resolve_string_value(node: JsonValue, literals: LookupFn) -> Option<Seq<char>> {
    match spec_literal_str(node) {
        Some(v) => Some(v),
        None => match spec_identifier_name(node) {
            Some(n) => literals(n),
            None => None,
        },
    }
}

/// The string a node stands for, directly or through an identifier bound to
/// a string literal.
pub fn resolve_string_value(node: Option<&JsonValue>, literals: &IdentifierLookup) -> (r: Option<
    String,
>)
    ensures
        opt_view(r) == match node {
            Some(n) => spec_resolve_string_value(*n, literals@),
            None => None,
        },
{
    let n = match node {
        Some(n) => n,
        None => {
            return None;
        },
    };
    match literal_str(n) {
        Some(v) => {
            return Some(to_string(v));
        },
        None => {},
    }
    match identifier_name(n) {
        Some(name) => literals.lookup(name),
        None => None,
    }
}

} // verus!
