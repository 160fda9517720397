//! The `isMonkeyPatch` probe.

use vstd::prelude::*;

use crate::estree::functions::{
    call_expression_identifier, get_member_expression_identifier, spec_call_identifier,
    spec_member_parts,
};
use crate::estree::types::{
    is_member_expression, no_lookup, node_type, spec_is_type, spec_node_type, IdentifierLookup,
    LookupFn,
};
use crate::json::JsonValue;
use crate::probe::{spec_traces, spec_traces_in_own_module, traces, traces_in_own_module, view_traces, TraceRequest, opt_view, ProbeInfo};
use crate::probes::strings;
use crate::text::{first_dot, split_at_first_dot, str_eq, strings_contain, to_string, view_strings};

verus! {

/// The `isMonkeyPatch` probe.
pub struct IsMonkeyPatch;

impl IsMonkeyPatch {
    pub fn name(&self) -> (r: String)
        ensures
            r@ == "isMonkeyPatch"@,
    {
        to_string("isMonkeyPatch")
    }

    /// The ESTree node types the probe handles.
    pub fn node_types(&self) -> (r: Option<Vec<String>>)
        ensures
            match r {
                Some(v) => Some(view_strings(v@)),
                None => None::<Seq<Seq<char>>>,
            } == Some(seq!["AssignmentExpression"@, "CallExpression"@]),
    {
        Some(strings(&["AssignmentExpression", "CallExpression"]))
    }

    pub fn break_on_match(&self) -> (r: bool)
        ensures
            r == false,
    {
        false
    }

    pub fn break_group(&self) -> (r: Option<String>)
        ensures
            opt_view(r) == None::<Seq<char>>,
    {
        None
    }

    /// What the runner needs to know of the probe.
    pub fn info(&self) -> (r: ProbeInfo)
        ensures
            r.name@ == "isMonkeyPatch"@,
            match r.node_types {
                Some(v) => Some(view_strings(v@)),
                None => None::<Seq<Seq<char>>>,
            } == Some(seq!["AssignmentExpression"@, "CallExpression"@]),
            r.break_on_match == false,
            opt_view(r.break_group) == None::<Seq<char>>,
    {
        ProbeInfo {
            name: self.name(),
            node_types: self.node_types(),
            break_on_match: self.break_on_match(),
            break_group: self.break_group(),
        }
    }
}

} // verus!

verus! {

/// The built-in JavaScript types whose prototypes must not be patched.
pub open spec fn js_types() -> Seq<Seq<char>> {
    seq![
        "AggregateError"@,
        "Array"@,
        "ArrayBuffer"@,
        "BigInt"@,
        "BigInt64Array"@,
        "BigUint64Array"@,
        "Boolean"@,
        "DataView"@,
        "Date"@,
        "Error"@,
        "EvalError"@,
        "FinalizationRegistry"@,
        "Float32Array"@,
        "Float64Array"@,
        "Function"@,
        "Int16Array"@,
        "Int32Array"@,
        "Int8Array"@,
        "Map"@,
        "Number"@,
        "Object"@,
        "Promise"@,
        "Proxy"@,
        "RangeError"@,
        "ReferenceError"@,
        "Reflect"@,
        "RegExp"@,
        "Set"@,
        "SharedArrayBuffer"@,
        "String"@,
        "Symbol"@,
        "SyntaxError"@,
        "TypeError"@,
        "Uint16Array"@,
        "Uint32Array"@,
        "Uint8Array"@,
        "Uint8ClampedArray"@,
        "URIError"@,
        "WeakMap"@,
        "WeakRef"@,
        "WeakSet"@,
    ]
}

/// The built-in JavaScript types whose prototypes must not be patched.
pub fn js_type_names() -> (r: Vec<String>)
    ensures
        view_strings(r@) == js_types(),
{
    let r = strings(
        &[
            "AggregateError",
            "Array",
            "ArrayBuffer",
            "BigInt",
            "BigInt64Array",
            "BigUint64Array",
            "Boolean",
            "DataView",
            "Date",
            "Error",
            "EvalError",
            "FinalizationRegistry",
            "Float32Array",
            "Float64Array",
            "Function",
            "Int16Array",
            "Int32Array",
            "Int8Array",
            "Map",
            "Number",
            "Object",
            "Promise",
            "Proxy",
            "RangeError",
            "ReferenceError",
            "Reflect",
            "RegExp",
            "Set",
            "SharedArrayBuffer",
            "String",
            "Symbol",
            "SyntaxError",
            "TypeError",
            "Uint16Array",
            "Uint32Array",
            "Uint8Array",
            "Uint8ClampedArray",
            "URIError",
            "WeakMap",
            "WeakRef",
            "WeakSet",
        ],
    );
    proof {
        assert(view_strings(r@) =~= js_types());
    }
    r
}

/// The built-in type a name stands for: itself when it is one, else the
/// name the tracer resolves it to (`traced`) when that is one.
pub open spec fn spec_resolve_js_type(name: Seq<char>, traced: LookupFn) -> Option<Seq<char>> {
    if js_types().contains(name) {
        Some(name)
    } else {
        match traced(name) {
            Some(t) => if js_types().contains(t) {
                Some(t)
            } else {
                None
            },
            None => None,
        }
    }
}

/// The built-in type a name stands for, directly or through the tracer.
pub fn resolve_js_type_name(name: &str, traced: &IdentifierLookup) -> (r: Option<String>)
    ensures
        opt_view(r) == spec_resolve_js_type(name@, traced@),
{
    let types = js_type_names();
    if strings_contain(&types, name) {
        return Some(to_string(name));
    }
    match traced.lookup(name) {
        Some(t) => {
            if strings_contain(&types, t.as_str()) {
                Some(t)
            } else {
                None
            }
        },
        None => None,
    }
}

/// `Type.prototype...` for a member expression on the prototype of a
/// built-in type (directly or through the tracer); `lk` gives the literal
/// values of identifiers used as computed members.
pub open spec fn spec_validate_member(node: JsonValue, traced: LookupFn, lk: LookupFn) -> Option<
    Seq<char>,
> {
    let parts = spec_member_parts(node, lk);
    if parts.len() == 0 {
        None
    } else {
        match spec_resolve_js_type(parts[0], traced) {
            Some(t) => if parts.len() > 1 && parts[1] == "prototype"@ {
                Some(t + ".prototype"@)
            } else {
                None
            },
            None => None,
        }
    }
}

/// `Type.prototype` for a member expression on the prototype of a built-in
/// type.
pub fn validate_member_expression(
    node: &JsonValue,
    traced: &IdentifierLookup,
    literals: &IdentifierLookup,
) -> (r: Option<String>)
    ensures
        opt_view(r) == spec_validate_member(*node, traced@, literals@),
{
    let parts = get_member_expression_identifier(node, literals);
    if parts.len() == 0 {
        return None;
    }
    let js_type_name = match resolve_js_type_name(parts[0].as_str(), traced) {
        Some(t) => t,
        None => {
            return None;
        },
    };
    if parts.len() > 1 && str_eq(parts[1].as_str(), "prototype") {
        let mut r = js_type_name;
        r.append(".prototype");
        Some(r)
    } else {
        None
    }
}

/// An assignment to a member of a built-in type's prototype.
pub open spec fn spec_validate_assignment(node: JsonValue, traced: LookupFn, lk: LookupFn) -> Option<
    Seq<char>,
> {
    match node.spec_get("left"@) {
        Some(left) => if spec_is_type(left, "MemberExpression"@) {
            spec_validate_member(left, traced, lk)
        } else {
            None
        },
        None => None,
    }
}

/// An assignment to a member of a built-in type's prototype.
pub fn validate_node_assignment(
    node: &JsonValue,
    traced: &IdentifierLookup,
    literals: &IdentifierLookup,
) -> (r: Option<String>)
    ensures
        opt_view(r) == spec_validate_assignment(*node, traced@, literals@),
{
    match node.get("left") {
        Some(left) => {
            if is_member_expression(left) {
                validate_member_expression(left, traced, literals)
            } else {
                None
            }
        },
        None => None,
    }
}

/// The `defineProperty` a call makes: `Object.defineProperty` or
/// `Reflect.defineProperty`, directly or through a name that the tracer
/// resolves to `Object` or `Reflect`.
pub open spec fn spec_define_property_identifier(node: JsonValue, traced: LookupFn) -> Option<
    Seq<char>,
> {
    match spec_call_identifier(node, no_lookup(), true) {
        Some(id) => if id == "Object.defineProperty"@ || id == "Reflect.defineProperty"@ {
            Some(id)
        } else {
            match first_dot(id) {
                Some(d) => if id.skip(d + 1) != "defineProperty"@ {
                    None
                } else {
                    match spec_resolve_js_type(id.take(d), traced) {
                        Some(t) => if t == "Object"@ || t == "Reflect"@ {
                            Some(t + ".defineProperty"@)
                        } else {
                            None
                        },
                        None => None,
                    }
                },
                None => None,
            }
        },
        None => None,
    }
}

/// The `defineProperty` a call makes, if it makes one.
pub fn resolve_define_property_identifier(node: &JsonValue, traced: &IdentifierLookup) -> (r: Option<
    String,
>)
    ensures
        opt_view(r) == spec_define_property_identifier(*node, traced@),
{
    let id = match call_expression_identifier(node) {
        Some(id) => id,
        None => {
            return None;
        },
    };
    if str_eq(id.as_str(), "Object.defineProperty") || str_eq(id.as_str(), "Reflect.defineProperty") {
        return Some(id);
    }
    let (object_part, method_name) = match split_at_first_dot(id.as_str()) {
        Some(parts) => parts,
        None => {
            return None;
        },
    };
    if !str_eq(method_name.as_str(), "defineProperty") {
        return None;
    }
    let resolved = match resolve_js_type_name(object_part.as_str(), traced) {
        Some(t) => t,
        None => {
            return None;
        },
    };
    if str_eq(resolved.as_str(), "Object") || str_eq(resolved.as_str(), "Reflect") {
        let mut r = resolved;
        r.append(".defineProperty");
        Some(r)
    } else {
        None
    }
}

/// A `defineProperty` call on a member of a built-in type's prototype.
pub open spec fn spec_validate_define_property(
    node: JsonValue,
    traced: LookupFn,
    lk: LookupFn,
) -> Option<Seq<char>> {
    if spec_define_property_identifier(node, traced) is None {
        None
    } else {
        match node.spec_get_array("arguments"@) {
            Some(args) => if args.len() > 0 && spec_is_type(args[0], "MemberExpression"@) {
                spec_validate_member(args[0], traced, lk)
            } else {
                None
            },
            None => None,
        }
    }
}

/// A `defineProperty` call on a member of a built-in type's prototype.
pub fn validate_define_property(
    node: &JsonValue,
    traced: &IdentifierLookup,
    literals: &IdentifierLookup,
) -> (r: Option<String>)
    ensures
        opt_view(r) == spec_validate_define_property(*node, traced@, literals@),
{
    if resolve_define_property_identifier(node, traced).is_none() {
        return None;
    }
    let args = match node.get_array("arguments") {
        Some(a) => a,
        None => {
            return None;
        },
    };
    if args.len() == 0 || !is_member_expression(&args[0]) {
        return None;
    }
    validate_member_expression(&args[0], traced, literals)
}

/// The validator: an assignment to, or a `defineProperty` on, a member of a
/// built-in type's prototype; the patched prototype's name.
pub open spec fn spec_monkey_patch(node: JsonValue, traced: LookupFn, lk: LookupFn) -> Option<
    Seq<char>,
> {
    if spec_node_type(node) == Some("AssignmentExpression"@) {
        spec_validate_assignment(node, traced, lk)
    } else if spec_node_type(node) == Some("CallExpression"@) {
        spec_validate_define_property(node, traced, lk)
    } else {
        None
    }
}

/// The validator: the name of the built-in prototype a node patches.
pub fn validate_node(node: &JsonValue, traced: &IdentifierLookup, literals: &IdentifierLookup) -> (r:
    Option<String>)
    ensures
        opt_view(r) == spec_monkey_patch(*node, traced@, literals@),
{
    match node_type(node) {
        Some(t) => {
            if str_eq(t, "AssignmentExpression") {
                validate_node_assignment(node, traced, literals)
            } else if str_eq(t, "CallExpression") {
                validate_define_property(node, traced, literals)
            } else {
                None
            }
        },
        None => None,
    }
}

} // verus!

verus! {

impl IsMonkeyPatch {
    /// The names the probe asks the variable tracer to follow.
    pub fn initialize(&self) -> (r: Vec<TraceRequest>)
        ensures
            view_traces(r@) == spec_traces(seq!["AggregateError"@, "Array"@, "ArrayBuffer"@, "BigInt"@, "BigInt64Array"@, "BigUint64Array"@, "Boolean"@, "DataView"@, "Date"@, "Error"@, "EvalError"@, "FinalizationRegistry"@, "Float32Array"@, "Float64Array"@, "Function"@, "Int16Array"@, "Int32Array"@, "Int8Array"@, "Map"@, "Number"@, "Object"@, "Promise"@, "Proxy"@, "RangeError"@, "ReferenceError"@, "Reflect"@, "RegExp"@, "Set"@, "SharedArrayBuffer"@, "String"@, "Symbol"@, "SyntaxError"@, "TypeError"@, "Uint16Array"@, "Uint32Array"@, "Uint8Array"@, "Uint8ClampedArray"@, "URIError"@, "WeakMap"@, "WeakRef"@, "WeakSet"@], false, None),
    {
        let mut r = traces(&["AggregateError", "Array", "ArrayBuffer", "BigInt", "BigInt64Array", "BigUint64Array", "Boolean", "DataView", "Date", "Error", "EvalError", "FinalizationRegistry", "Float32Array", "Float64Array", "Function", "Int16Array", "Int32Array", "Int8Array", "Map", "Number", "Object", "Promise", "Proxy", "RangeError", "ReferenceError", "Reflect", "RegExp", "Set", "SharedArrayBuffer", "String", "Symbol", "SyntaxError", "TypeError", "Uint16Array", "Uint32Array", "Uint8Array", "Uint8ClampedArray", "URIError", "WeakMap", "WeakRef", "WeakSet"], false, None);
        proof {
            assert(view_traces(r@) =~= spec_traces(seq!["AggregateError"@, "Array"@, "ArrayBuffer"@, "BigInt"@, "BigInt64Array"@, "BigUint64Array"@, "Boolean"@, "DataView"@, "Date"@, "Error"@, "EvalError"@, "FinalizationRegistry"@, "Float32Array"@, "Float64Array"@, "Function"@, "Int16Array"@, "Int32Array"@, "Int8Array"@, "Map"@, "Number"@, "Object"@, "Promise"@, "Proxy"@, "RangeError"@, "ReferenceError"@, "Reflect"@, "RegExp"@, "Set"@, "SharedArrayBuffer"@, "String"@, "Symbol"@, "SyntaxError"@, "TypeError"@, "Uint16Array"@, "Uint32Array"@, "Uint8Array"@, "Uint8ClampedArray"@, "URIError"@, "WeakMap"@, "WeakRef"@, "WeakSet"@], false, None));
        }
        r
    }
}

} // verus!
