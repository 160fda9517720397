//! The `isWeakCrypto` probe.

use vstd::prelude::*;

use crate::estree::types::{is_string_literal, spec_is_string_literal};
use crate::json::JsonValue;
use crate::probe::{spec_traces, spec_traces_in_own_module, traces, traces_in_own_module, view_traces, TraceRequest, opt_view, ProbeInfo};
use crate::probes::strings;
use crate::text::{str_eq, strings_contain, to_string, view_strings};

verus! {

/// The `isWeakCrypto` probe.
pub struct IsWeakAlgorithm;

impl IsWeakAlgorithm {
    pub fn name(&self) -> (r: String)
        ensures
            r@ == "isWeakCrypto"@,
    {
        to_string("isWeakCrypto")
    }

    /// The ESTree node types the probe handles.
    pub fn node_types(&self) -> (r: Option<Vec<String>>)
        ensures
            match r {
                Some(v) => Some(view_strings(v@)),
                None => None::<Seq<Seq<char>>>,
            } == Some(seq!["CallExpression"@]),
    {
        Some(strings(&["CallExpression"]))
    }

    pub fn break_on_match(&self) -> (r: bool)
        ensures
            r == false,
    {
        false
    }

    pub fn break_group(&self) -> (r: Option<String>)
        ensures
            opt_view(r) == None::<Seq<char>>,
    {
        None
    }

    /// What the runner needs to know of the probe.
    pub fn info(&self) -> (r: ProbeInfo)
        ensures
            r.name@ == "isWeakCrypto"@,
            match r.node_types {
                Some(v) => Some(view_strings(v@)),
                None => None::<Seq<Seq<char>>>,
            } == Some(seq!["CallExpression"@]),
            r.break_on_match == false,
            opt_view(r.break_group) == None::<Seq<char>>,
    {
        ProbeInfo {
            name: self.name(),
            node_types: self.node_types(),
            break_on_match: self.break_on_match(),
            break_group: self.break_group(),
        }
    }
}

} // verus!

verus! {

/// The hash algorithms that are too weak.
pub open spec fn weak_algorithms() -> Seq<Seq<char>> {
    seq!["md5"@, "sha1"@, "ripemd160"@, "md4"@, "md2"@]
}

/// The functions that take a hash algorithm.
pub open spec fn hash_functions() -> Seq<Seq<char>> {
    seq!["crypto.createHash"@, "crypto.createHmac"@]
}

/// The validator: a call that the tracer resolved (`traced_data`) to
/// `crypto.createHash` or `crypto.createHmac`, in a file that imports
/// `crypto`.
pub fn validate_node(imports_crypto: bool, traced_data: Option<&str>) -> (r: bool)
    ensures
        r == (imports_crypto && match traced_data {
            Some(t) => hash_functions().contains(t@),
            None => false,
        }),
{
    if !imports_crypto {
        return false;
    }
    match traced_data {
        Some(t) => {
            let functions = strings(&["crypto.createHash", "crypto.createHmac"]);
            proof {
                assert(view_strings(functions@) =~= hash_functions());
            }
            strings_contain(&functions, t)
        },
        None => false,
    }
}

/// The weak algorithm a hash call names as its first argument, if any.
pub open spec fn spec_weak_algorithm(node: JsonValue) -> Option<Seq<char>> {
    match node.spec_get_array("arguments"@) {
        Some(args) => if args.len() > 0 && spec_is_string_literal(args[0]) {
            match args[0].spec_get_str("value"@) {
                Some(v) => if weak_algorithms().contains(v) {
                    Some(v)
                } else {
                    None
                },
                None => None,
            }
        } else {
            None
        },
        None => None,
    }
}

/// A hash call whose first argument is the string literal `v` names a weak
/// algorithm exactly when `v` is `md5`, `sha1`, `ripemd160`, `md4` or `md2`,
/// and the algorithm it names is `v` itself.
pub proof fn lemma_weak_algorithm_of_literal(
    node: JsonValue,
    args: Seq<JsonValue>,
    value: String,
    number: Option<i64>,
)
    requires
        node.spec_get_array("arguments"@) == Some(args),
        args.len() > 0,
        args[0].spec_get_str("type"@) == Some("Literal"@),
        args[0].spec_get("value"@) == Some(JsonValue::String(value, number)),
    ensures
        spec_weak_algorithm(node) == if value@ == "md5"@ || value@ == "sha1"@ || value@
            == "ripemd160"@ || value@ == "md4"@ || value@ == "md2"@ {
            Some(value@)
        } else {
            None
        },
{
    let v = value@;
    let weak = weak_algorithms();
    assert(spec_is_string_literal(args[0]));
    assert(args[0].spec_get_str("value"@) == Some(v));
    if v == "md5"@ || v == "sha1"@ || v == "ripemd160"@ || v == "md4"@ || v == "md2"@ {
        if v == "md5"@ {
            assert(weak[0] == v);
        } else if v == "sha1"@ {
            assert(weak[1] == v);
        } else if v == "ripemd160"@ {
            assert(weak[2] == v);
        } else if v == "md4"@ {
            assert(weak[3] == v);
        } else {
            assert(weak[4] == v);
        }
        assert(weak.contains(v));
    } else {
        assert forall|i: int| 0 <= i < weak.len() implies weak[i] != v by {
            if i == 0 {
            } else if i == 1 {
            } else if i == 2 {
            } else if i == 3 {
            } else {
            }
        }
        assert(!weak.contains(v));
    }
}

/// The weak algorithm a hash call names as its first argument, if any: the
/// value of the `crypto.weak-algorithm` warning.
pub fn weak_algorithm(node: &JsonValue) -> (r: Option<String>)
    ensures
        opt_view(r) == spec_weak_algorithm(*node),
{
    let args = match node.get_array("arguments") {
        Some(a) => a,
        None => {
            return None;
        },
    };
    if args.len() == 0 || !is_string_literal(&args[0]) {
        return None;
    }
    match args[0].get_str("value") {
        Some(v) => {
            let weak = strings(&["md5", "sha1", "ripemd160", "md4", "md2"]);
            proof {
                assert(view_strings(weak@) =~= weak_algorithms());
            }
            if strings_contain(&weak, v) {
                Some(to_string(v))
            } else {
                None
            }
        },
        None => None,
    }
}

} // verus!

verus! {

impl IsWeakAlgorithm {
    /// The names the probe asks the variable tracer to follow.
    pub fn initialize(&self) -> (r: Vec<TraceRequest>)
        ensures
            view_traces(r@) == spec_traces(seq!["crypto.createHash"@, "crypto.createHmac"@], false, Some("crypto"@)),
    {
        let mut r = traces(&["crypto.createHash", "crypto.createHmac"], false, Some("crypto"));
        proof {
            assert(view_traces(r@) =~= spec_traces(seq!["crypto.createHash"@, "crypto.createHmac"@], false, Some("crypto"@)));
        }
        r
    }
}

} // verus!
