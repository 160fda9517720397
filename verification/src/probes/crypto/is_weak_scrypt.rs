//! The `isWeakScrypt` probe.

use vstd::prelude::*;

use crate::estree::types::{
    identifier_name, is_identifier, is_numeric_literal, is_string_literal, is_type,
    spec_identifier_name, spec_is_numeric_literal, spec_is_string_literal, spec_is_type,
};
use crate::json::JsonValue;
use crate::parser::{utf16_len, utf16_length};
use crate::probe::{spec_traces, spec_traces_in_own_module, traces, traces_in_own_module, view_traces, TraceRequest, opt_view, ProbeInfo};
use crate::probes::strings;
use crate::text::{str_eq, strings_contain, to_string, view_strings};

verus! {

/// The `isWeakScrypt` probe.
pub struct IsWeakScrypt;

impl IsWeakScrypt {
    pub fn name(&self) -> (r: String)
        ensures
            r@ == "isWeakScrypt"@,
    {
        to_string("isWeakScrypt")
    }

    /// The ESTree node types the probe handles.
    pub fn node_types(&self) -> (r: Option<Vec<String>>)
        ensures
            match r {
                Some(v) => Some(view_strings(v@)),
                None => None::<Seq<Seq<char>>>,
            } == Some(seq!["CallExpression"@]),
    {
        Some(strings(&["CallExpression"]))
    }

    pub fn break_on_match(&self) -> (r: bool)
        ensures
            r == false,
    {
        false
    }

    pub fn break_group(&self) -> (r: Option<String>)
        ensures
            opt_view(r) == None::<Seq<char>>,
    {
        None
    }

    /// What the runner needs to know of the probe.
    pub fn info(&self) -> (r: ProbeInfo)
        ensures
            r.name@ == "isWeakScrypt"@,
            match r.node_types {
                Some(v) => Some(view_strings(v@)),
                None => None::<Seq<Seq<char>>>,
            } == Some(seq!["CallExpression"@]),
            r.break_on_match == false,
            opt_view(r.break_group) == None::<Seq<char>>,
    {
        ProbeInfo {
            name: self.name(),
            node_types: self.node_types(),
            break_on_match: self.break_on_match(),
            break_group: self.break_group(),
        }
    }
}

} // verus!

verus! {

/// A JSON number as the rules compare it: truncated toward zero. Against
/// the positive integer thresholds of these rules, a number compares as its
/// truncation does.
pub open spec fn number_value(v: JsonValue) -> Option<int> {
    match v {
        JsonValue::Number(n) => Some(n.truncated as int),
        _ => None,
    }
}

/// The number a property gives for one of `names`: its key is an
/// identifier among `names` and its value a number literal.
pub open spec fn property_number(prop: JsonValue, names: Seq<Seq<char>>) -> Option<int> {
    match (prop.spec_get("key"@), prop.spec_get("value"@)) {
        (Some(key), Some(value)) => if spec_is_type(key, "Identifier"@) && spec_is_numeric_literal(
            value,
        ) {
            match spec_identifier_name(key) {
                Some(n) => if names.contains(n) {
                    match value.spec_get("value"@) {
                        Some(v) => number_value(v),
                        None => None,
                    }
                } else {
                    None
                },
                None => None,
            }
        } else {
            None
        },
        _ => None,
    }
}

/// The number of the first property that gives one for `names`.
pub open spec fn spec_extract_numeric_param(props: Seq<JsonValue>, names: Seq<Seq<char>>) -> Option<
    int,
>
    decreases props.len(),
{
    if props.len() == 0 {
        None
    } else {
        match property_number(props[0], names) {
            Some(v) => Some(v),
            None => spec_extract_numeric_param(props.drop_first(), names),
        }
    }
}

/// The number the first property named by one of `names` is set to.
pub fn extract_numeric_param(properties: &Vec<&JsonValue>, names: &Vec<String>) -> (r: Option<i64>)
    ensures
        match r {
            Some(v) => Some(v as int),
            None => None::<int>,
        } == spec_extract_numeric_param(properties@.map_values(|p: &JsonValue| *p), view_strings(names@)),
{
    let ghost props = properties@.map_values(|p: &JsonValue| *p);
    let mut i: usize = 0;
    proof {
        assert(props.skip(0) =~= props);
    }
    while i < properties.len()
        invariant
            props == properties@.map_values(|p: &JsonValue| *p),
            0 <= i <= properties@.len(),
            spec_extract_numeric_param(props, view_strings(names@)) == spec_extract_numeric_param(
                props.skip(i as int),
                view_strings(names@),
            ),
        decreases properties.len() - i,
    {
        proof {
            assert(props.skip(i as int).drop_first() =~= props.skip(i + 1));
            assert(props.skip(i as int)[0] == *properties@[i as int]);
        }
        let prop = properties[i];
        match (prop.get("key"), prop.get("value")) {
            (Some(key), Some(value)) => {
                if is_identifier(key) {
                    match identifier_name(key) {
                        Some(n) => {
                            if strings_contain(names, n) && is_numeric_literal(value) {
                                match value.get("value") {
                                    Some(JsonValue::Number(num)) => {
                                        return Some(num.truncated);
                                    },
                                    _ => {},
                                }
                            }
                        },
                        None => {},
                    }
                }
            },
            _ => {},
        }
        i = i + 1;
    }
    None
}

/// Whether scrypt parameters are below the OWASP recommendations: a block
/// size under 8, or a cost under 8192, or a parallelization under the one
/// that the cost's row asks for.
pub open spec fn spec_is_weak_scrypt(cost: int, block_size: int, parallelization: int) -> bool {
    if block_size < 8 {
        true
    } else if cost >= 131072 {
        parallelization < 1
    } else if cost >= 65536 {
        parallelization < 2
    } else if cost >= 32768 {
        parallelization < 3
    } else if cost >= 16384 {
        parallelization < 5
    } else if cost >= 8192 {
        parallelization < 10
    } else {
        true
    }
}

/// Whether scrypt parameters are below the OWASP recommendations.
pub fn is_weak_scrypt_params(cost: i64, block_size: i64, parallelization: i64) -> (r: bool)
    ensures
        r == spec_is_weak_scrypt(cost as int, block_size as int, parallelization as int),
{
    if block_size < 8 {
        return true;
    }
    if cost >= 131072 {
        return parallelization < 1;
    }
    if cost >= 65536 {
        return parallelization < 2;
    }
    if cost >= 32768 {
        return parallelization < 3;
    }
    if cost >= 16384 {
        return parallelization < 5;
    }
    if cost >= 8192 {
        return parallelization < 10;
    }
    true
}

/// The properties of an object expression that are `Property` nodes.
pub open spec fn property_nodes(props: Seq<JsonValue>) -> Seq<JsonValue>
    decreases props.len(),
{
    if props.len() == 0 {
        Seq::empty()
    } else {
        let rest = property_nodes(props.drop_last());
        if spec_is_type(props.last(), "Property"@) {
            rest.push(props.last())
        } else {
            rest
        }
    }
}

/// The `low-cost` finding on the options of a scrypt call: some parameter
/// is given and, with the defaults for the others, they are weak.
pub open spec fn spec_low_cost(options: JsonValue) -> bool {
    if spec_is_type(options, "ObjectExpression"@) {
        let props = property_nodes(
            match options.spec_get_array("properties"@) {
                Some(p) => p,
                None => Seq::empty(),
            },
        );
        let c = spec_extract_numeric_param(props, seq!["cost"@, "N"@]);
        let b = spec_extract_numeric_param(props, seq!["blockSize"@, "r"@]);
        let p = spec_extract_numeric_param(props, seq!["parallelization"@, "p"@]);
        (c is Some || b is Some || p is Some) && spec_is_weak_scrypt(
            match c {
                Some(v) => v,
                None => 16384,
            },
            match b {
                Some(v) => v,
                None => 8,
            },
            match p {
                Some(v) => v,
                None => 1,
            },
        )
    } else {
        false
    }
}

/// What the probe warns of on a `crypto.scrypt` call, in order: `low-cost`
/// for weak options (fourth argument), then `short-salt` or
/// `hardcoded-salt` for a string literal salt (second argument), short
/// under 16 UTF-16 units.
pub open spec fn spec_scrypt_warnings(node: JsonValue) -> Seq<Seq<char>> {
    let args = match node.spec_get_array("arguments"@) {
        Some(a) => a,
        None => Seq::empty(),
    };
    let low = if args.len() > 3 && spec_low_cost(args[3]) {
        seq!["low-cost"@]
    } else {
        Seq::empty()
    };
    let salt = if args.len() > 1 && spec_is_string_literal(args[1]) {
        if utf16_len(
            match args[1].spec_get_str("value"@) {
                Some(v) => v,
                None => Seq::empty(),
            },
        ) < 16 {
            seq!["short-salt"@]
        } else {
            seq!["hardcoded-salt"@]
        }
    } else {
        Seq::empty()
    };
    low + salt
}

fn low_cost(options: &JsonValue) -> (r: bool)
    ensures
        r == spec_low_cost(*options),
{
    if !is_type(options, "ObjectExpression") {
        return false;
    }
    let mut properties: Vec<&JsonValue> = Vec::new();
    let ghost all = match options.spec_get_array("properties"@) {
        Some(p) => p,
        None => Seq::empty(),
    };
    match options.get_array("properties") {
        Some(props) => {
            let mut i: usize = 0;
            while i < props.len()
                invariant
                    all == props@,
                    0 <= i <= props@.len(),
                    properties@.map_values(|p: &JsonValue| *p) == property_nodes(all.take(i as int)),
                decreases props.len() - i,
            {
                proof {
                    assert(all.take(i + 1).drop_last() =~= all.take(i as int));
                    assert(all.take(i + 1).last() == props@[i as int]);
                }
                let ghost before = properties@;
                if is_type(&props[i], "Property") {
                    properties.push(&props[i]);
                    proof {
                        assert(properties@.map_values(|p: &JsonValue| *p) =~= before.map_values(
                            |p: &JsonValue| *p,
                        ).push(props@[i as int]));
                    }
                }
                i = i + 1;
            }
            proof {
                assert(all.take(props@.len() as int) =~= all);
            }
        },
        None => {
            proof {
                assert(properties@.map_values(|p: &JsonValue| *p) =~= property_nodes(all));
            }
        },
    }
    let cost_names = strings(&["cost", "N"]);
    let block_names = strings(&["blockSize", "r"]);
    let par_names = strings(&["parallelization", "p"]);
    proof {
        assert(view_strings(cost_names@) =~= seq!["cost"@, "N"@]);
        assert(view_strings(block_names@) =~= seq!["blockSize"@, "r"@]);
        assert(view_strings(par_names@) =~= seq!["parallelization"@, "p"@]);
    }
    let cost = extract_numeric_param(&properties, &cost_names);
    let block_size = extract_numeric_param(&properties, &block_names);
    let parallelization = extract_numeric_param(&properties, &par_names);
    if cost.is_none() && block_size.is_none() && parallelization.is_none() {
        return false;
    }
    let c = match cost {
        Some(v) => v,
        None => 16384,
    };
    let b = match block_size {
        Some(v) => v,
        None => 8,
    };
    let p = match parallelization {
        Some(v) => v,
        None => 1,
    };
    is_weak_scrypt_params(c, b, p)
}

/// What the probe warns of on a `crypto.scrypt` call, in order.
pub fn scrypt_warnings(node: &JsonValue) -> (r: Vec<String>)
    ensures
        view_strings(r@) == spec_scrypt_warnings(*node),
{
    let mut out: Vec<String> = Vec::new();
    let ghost args = match node.spec_get_array("arguments"@) {
        Some(a) => a,
        None => Seq::empty(),
    };
    match node.get_array("arguments") {
        Some(args_vec) => {
            if args_vec.len() > 3 && low_cost(&args_vec[3]) {
                out.push(to_string("low-cost"));
            }
            if args_vec.len() > 1 && is_string_literal(&args_vec[1]) {
                let value = match args_vec[1].get_str("value") {
                    Some(v) => v,
                    None => "",
                };
                proof {
                    reveal_strlit("");
                    assert(""@ =~= Seq::<char>::empty());
                }
                if utf16_length(value) < 16 {
                    out.push(to_string("short-salt"));
                } else {
                    out.push(to_string("hardcoded-salt"));
                }
            }
            proof {
                assert(view_strings(out@) =~= spec_scrypt_warnings(*node));
            }
        },
        None => {
            proof {
                assert(view_strings(out@) =~= spec_scrypt_warnings(*node));
            }
        },
    }
    out
}

} // verus!

verus! {

impl IsWeakScrypt {
    /// The names the probe asks the variable tracer to follow.
    pub fn initialize(&self) -> (r: Vec<TraceRequest>)
        ensures
            view_traces(r@) == spec_traces(seq!["crypto.scrypt"@], false, Some("crypto"@)),
    {
        let mut r = traces(&["crypto.scrypt"], false, Some("crypto"));
        proof {
            assert(view_traces(r@) =~= spec_traces(seq!["crypto.scrypt"@], false, Some("crypto"@)));
        }
        r
    }
}

} // verus!
