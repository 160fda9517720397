//! The `isWeakBcrypt` probe.

use vstd::prelude::*;

use crate::estree::types::{
    is_identifier, is_numeric_literal, is_string_literal, spec_is_type,
    spec_is_numeric_literal, spec_is_string_literal,
};
use crate::json::JsonValue;
use crate::probe::{spec_traces, spec_traces_in_own_module, traces, traces_in_own_module, view_traces, TraceRequest, opt_view, ProbeInfo};
use crate::probes::crypto::is_weak_scrypt::number_value;
use crate::probes::strings;
use crate::text::{first_dot, split_at_first_dot, str_eq, to_string, view_strings};

verus! {

/// The `isWeakBcrypt` probe.
pub struct IsWeakBcrypt;

impl IsWeakBcrypt {
    pub fn name(&self) -> (r: String)
        ensures
            r@ == "isWeakBcrypt"@,
    {
        to_string("isWeakBcrypt")
    }

    /// The ESTree node types the probe handles.
    pub fn node_types(&self) -> (r: Option<Vec<String>>)
        ensures
            match r {
                Some(v) => Some(view_strings(v@)),
                None => None::<Seq<Seq<char>>>,
            } == Some(seq!["CallExpression"@]),
    {
        Some(strings(&["CallExpression"]))
    }

    pub fn break_on_match(&self) -> (r: bool)
        ensures
            r == false,
    {
        false
    }

    pub fn break_group(&self) -> (r: Option<String>)
        ensures
            opt_view(r) == None::<Seq<char>>,
    {
        None
    }

    /// What the runner needs to know of the probe.
    pub fn info(&self) -> (r: ProbeInfo)
        ensures
            r.name@ == "isWeakBcrypt"@,
            match r.node_types {
                Some(v) => Some(view_strings(v@)),
                None => None::<Seq<Seq<char>>>,
            } == Some(seq!["CallExpression"@]),
            r.break_on_match == false,
            opt_view(r.break_group) == None::<Seq<char>>,
    {
        ProbeInfo {
            name: self.name(),
            node_types: self.node_types(),
            break_on_match: self.break_on_match(),
            break_group: self.break_group(),
        }
    }
}

} // verus!

verus! {

/// The argument that holds the work factor (or salt) of each traced
/// `bcryptjs` function.
pub open spec fn spec_arg_index_for(function_name: Seq<char>) -> Option<usize> {
    if function_name == "hash"@ || function_name == "hashSync"@ {
        Some(1)
    } else if function_name == "genSalt"@ || function_name == "genSaltSync"@ {
        Some(0)
    } else {
        None
    }
}

/// The argument that holds the work factor (or salt) of a traced function.
pub fn arg_index_for(function_name: &str) -> (r: Option<usize>)
    ensures
        r == spec_arg_index_for(function_name@),
{
    if str_eq(function_name, "hash") || str_eq(function_name, "hashSync") {
        Some(1)
    } else if str_eq(function_name, "genSalt") || str_eq(function_name, "genSaltSync") {
        Some(0)
    } else {
        None
    }
}

/// The function name after the first `.` of a traced name, when it is one
/// of the traced `bcryptjs` functions.
pub open spec fn spec_bcrypt_function(traced: Seq<char>) -> Option<Seq<char>> {
    match first_dot(traced) {
        Some(d) => if spec_arg_index_for(traced.skip(d + 1)) is Some {
            Some(traced.skip(d + 1))
        } else {
            None
        },
        None => None,
    }
}

/// The validator: the traced function's name (`hash`, `genSalt`, ...) when
/// the tracer resolved the call (`traced_data`) to one of the `bcryptjs`
/// functions, in a file that imports `bcryptjs`.
pub fn validate_node(imports_bcrypt: bool, traced_data: Option<&str>) -> (r: Option<String>)
    ensures
        opt_view(r) == if imports_bcrypt {
            match traced_data {
                Some(t) => spec_bcrypt_function(t@),
                None => None,
            }
        } else {
            None
        },
{
    if !imports_bcrypt {
        return None;
    }
    let traced = match traced_data {
        Some(t) => t,
        None => {
            return None;
        },
    };
    let function_name = match split_at_first_dot(traced) {
        Some(parts) => parts.1,
        None => {
            return None;
        },
    };
    if arg_index_for(function_name.as_str()).is_some() {
        Some(function_name)
    } else {
        None
    }
}

/// What the probe warns of on a call of a traced `bcryptjs` function: a
/// work factor under 10 (`low-work-factor`), from a number literal or from
/// the literal value of a traced identifier (`identifier_rounds`: that
/// value as a number truncated toward zero, `None` where the identifier has
/// none or it is not a number), else a string literal salt
/// (`hardcoded-salt`).
pub open spec fn spec_bcrypt_warning(
    node: JsonValue,
    function_name: Seq<char>,
    identifier_rounds: Option<int>,
) -> Option<Seq<char>> {
    match (spec_arg_index_for(function_name), node.spec_get_array("arguments"@)) {
        (Some(index), Some(args)) => if index < args.len() {
            let arg = args[index as int];
            let low = if spec_is_numeric_literal(arg) {
                match arg.spec_get("value"@) {
                    Some(v) => match number_value(v) {
                        Some(n) => n < 10,
                        None => false,
                    },
                    None => false,
                }
            } else if spec_is_type(arg, "Identifier"@) {
                match identifier_rounds {
                    Some(n) => n < 10,
                    None => false,
                }
            } else {
                false
            };
            if low {
                Some("low-work-factor"@)
            } else if spec_is_string_literal(arg) {
                Some("hardcoded-salt"@)
            } else {
                None
            }
        } else {
            None
        },
        _ => None,
    }
}

/// What the probe warns of on a call of a traced `bcryptjs` function.
pub fn bcrypt_warning(node: &JsonValue, function_name: &str, identifier_rounds: Option<i64>) -> (r:
    Option<String>)
    ensures
        opt_view(r) == spec_bcrypt_warning(
            *node,
            function_name@,
            match identifier_rounds {
                Some(n) => Some(n as int),
                None => None,
            },
        ),
{
    let index = match arg_index_for(function_name) {
        Some(i) => i,
        None => {
            return None;
        },
    };
    let args = match node.get_array("arguments") {
        Some(a) => a,
        None => {
            return None;
        },
    };
    if index >= args.len() {
        return None;
    }
    let arg = &args[index];
    let low = if is_numeric_literal(arg) {
        match arg.get("value") {
            Some(JsonValue::Number(n)) => n.truncated < 10,
            _ => false,
        }
    } else if is_identifier(arg) {
        match identifier_rounds {
            Some(n) => n < 10,
            None => false,
        }
    } else {
        false
    };
    if low {
        Some(to_string("low-work-factor"))
    } else if is_string_literal(arg) {
        Some(to_string("hardcoded-salt"))
    } else {
        None
    }
}

} // verus!

verus! {

impl IsWeakBcrypt {
    /// The names the probe asks the variable tracer to follow.
    pub fn initialize(&self) -> (r: Vec<TraceRequest>)
        ensures
            view_traces(r@) == spec_traces(seq!["bcryptjs.hash"@, "bcryptjs.hashSync"@, "bcryptjs.genSalt"@, "bcryptjs.genSaltSync"@], false, Some("bcryptjs"@)),
    {
        let mut r = traces(&["bcryptjs.hash", "bcryptjs.hashSync", "bcryptjs.genSalt", "bcryptjs.genSaltSync"], false, Some("bcryptjs"));
        proof {
            assert(view_traces(r@) =~= spec_traces(seq!["bcryptjs.hash"@, "bcryptjs.hashSync"@, "bcryptjs.genSalt"@, "bcryptjs.genSaltSync"@], false, Some("bcryptjs"@)));
        }
        r
    }
}

} // verus!
