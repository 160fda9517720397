//! The `isUnsafePrehash` probe.

use vstd::prelude::*;

use indexmap::IndexSet;

use crate::collections::{name_set_contains, name_set_insert, name_set_items, name_set_new, set_insert};
use crate::estree::functions::{get_param_names, spec_param_names};
use crate::estree::types::{
    identifier_name, is_call_expression, is_function_node, is_identifier, is_string_literal,
    spec_identifier_name, spec_is_function_node, spec_is_string_literal, spec_is_type,
    IdentifierLookup, LookupFn,
};
use crate::json::JsonValue;
use crate::probe::{spec_traces, spec_traces_in_own_module, traces, traces_in_own_module, view_traces, TraceRequest, opt_view, ProbeInfo};
use crate::probes::crypto::is_password_shucking::{inserted_all, param_nodes};
use crate::probes::crypto::resolve::{resolve_digest_call, spec_digest_arguments};
use crate::probes::strings;
use crate::text::{str_eq, strings_contain, to_string, view_strings};

verus! {

/// The `isUnsafePrehash` probe: the names bound to a digest in an unsafe
/// encoding, and the names that a function parameter makes ambiguous.
pub struct IsUnsafePrehash {
    pub unsafe_digest_variables: IndexSet<String>,
    pub ambiguous_variable_names: IndexSet<String>,
    pub entry_point: PrehashEntryPoint,
}

/// Which validator matched.
#[derive(Debug, Clone, Copy, PartialEq, Eq, Structural)]
pub enum PrehashEntryPoint {
    /// A `bcryptjs.hash` call.
    Default,
    /// A function whose parameters shadow digest names.
    MarkAmbiguousParams,
}

impl IsUnsafePrehash {
    pub fn name(&self) -> (r: String)
        ensures
            r@ == "isUnsafePrehash"@,
    {
        to_string("isUnsafePrehash")
    }

    /// The ESTree node types the probe handles.
    pub fn node_types(&self) -> (r: Option<Vec<String>>)
        ensures
            match r {
                Some(v) => Some(view_strings(v@)),
                None => None::<Seq<Seq<char>>>,
            } == Some(seq!["CallExpression"@, "FunctionDeclaration"@, "FunctionExpression"@, "ArrowFunctionExpression"@]),
    {
        Some(strings(&["CallExpression", "FunctionDeclaration", "FunctionExpression", "ArrowFunctionExpression"]))
    }

    pub fn break_on_match(&self) -> (r: bool)
        ensures
            r == false,
    {
        false
    }

    pub fn break_group(&self) -> (r: Option<String>)
        ensures
            opt_view(r) == None::<Seq<char>>,
    {
        None
    }

    /// What the runner needs to know of the probe.
    pub fn info(&self) -> (r: ProbeInfo)
        ensures
            r.name@ == "isUnsafePrehash"@,
            match r.node_types {
                Some(v) => Some(view_strings(v@)),
                None => None::<Seq<Seq<char>>>,
            } == Some(seq!["CallExpression"@, "FunctionDeclaration"@, "FunctionExpression"@, "ArrowFunctionExpression"@]),
            r.break_on_match == false,
            opt_view(r.break_group) == None::<Seq<char>>,
    {
        ProbeInfo {
            name: self.name(),
            node_types: self.node_types(),
            break_on_match: self.break_on_match(),
            break_group: self.break_group(),
        }
    }
}

} // verus!

verus! {

/// The digest encodings that keep a prehash safe for bcrypt.
pub open spec fn safe_digest_encodings() -> Seq<Seq<char>> {
    seq!["base64"@, "base64url"@, "hex"@]
}

/// The hash-and-digest chains that the probe follows.
pub open spec fn digest_chains() -> Seq<Seq<char>> {
    seq![
        "crypto.createHash.update.digest"@,
        "crypto.createHash.update.digest.toString"@,
        "crypto.createHash.digest"@,
        "crypto.createHash.digest.toString"@,
        "crypto.createHmac.update.digest"@,
        "crypto.createHmac.update.digest.toString"@,
        "crypto.createHmac.digest"@,
        "crypto.createHmac.digest.toString"@,
    ]
}

/// Whether an encoding argument names a safe encoding: a string literal, or
/// an identifier whose literal value (through `literals`) is one.
pub open spec fn spec_is_safe_encoding(node: Option<JsonValue>, literals: LookupFn) -> bool {
    match node {
        Some(n) => if spec_is_string_literal(n) {
            match n.spec_get_str("value"@) {
                Some(v) => safe_digest_encodings().contains(v),
                None => false,
            }
        } else if spec_is_type(n, "Identifier"@) {
            match literals(
                match spec_identifier_name(n) {
                    Some(name) => name,
                    None => Seq::empty(),
                },
            ) {
                Some(v) => safe_digest_encodings().contains(v),
                None => false,
            }
        } else {
            false
        },
        None => false,
    }
}

fn is_safe_encoding_name(value: &str) -> (r: bool)
    ensures
        r == safe_digest_encodings().contains(value@),
{
    let safe = strings(&["base64", "base64url", "hex"]);
    proof {
        assert(view_strings(safe@) =~= safe_digest_encodings());
    }
    strings_contain(&safe, value)
}

/// Whether an encoding argument names a safe encoding.
pub fn is_safe_encoding_arg(node: Option<&JsonValue>, literals: &IdentifierLookup) -> (r: bool)
    ensures
        r == spec_is_safe_encoding(
            match node {
                Some(n) => Some(*n),
                None => None,
            },
            literals@,
        ),
{
    let n = match node {
        Some(n) => n,
        None => {
            return false;
        },
    };
    if is_string_literal(n) {
        return match n.get_str("value") {
            Some(v) => is_safe_encoding_name(v),
            None => false,
        };
    }
    if is_identifier(n) {
        let name = match identifier_name(n) {
            Some(name) => name,
            None => "",
        };
        proof {
            reveal_strlit("");
            assert(""@ =~= Seq::<char>::empty());
        }
        return match literals.lookup(name) {
            Some(v) => is_safe_encoding_name(v.as_str()),
            None => false,
        };
    }
    false
}

/// The first of some arguments, if any.
pub open spec fn first_of(args: Seq<JsonValue>) -> Option<JsonValue> {
    if args.len() > 0 {
        Some(args[0])
    } else {
        None
    }
}

/// Whether a hash chain ends in a digest whose encoding is not a safe one.
pub open spec fn spec_has_unsafe_digest_encoding(hash_node: JsonValue, literals: LookupFn) -> bool {
    match spec_digest_arguments(hash_node) {
        Some(args) => !spec_is_safe_encoding(first_of(args), literals),
        None => false,
    }
}

/// Whether a hash chain ends in a digest whose encoding is not a safe one.
pub fn has_unsafe_digest_encoding(hash_node: Option<&JsonValue>, literals: &IdentifierLookup) -> (r:
    bool)
    ensures
        r == match hash_node {
            Some(h) => spec_has_unsafe_digest_encoding(*h, literals@),
            None => false,
        },
{
    match resolve_digest_call(hash_node) {
        Some(args) => {
            let first = if args.len() > 0 {
                Some(&args[0])
            } else {
                None
            };
            !is_safe_encoding_arg(first, literals)
        },
        None => false,
    }
}

/// Whether the argument of a `bcryptjs.hash` call is a digest in an unsafe
/// encoding: a name bound to one (and not made ambiguous), a call of such a
/// name without a safe encoding, or a digest chain itself.
pub open spec fn spec_is_unsafe_hash_argument(
    arg: JsonValue,
    ambiguous: Seq<Seq<char>>,
    unsafe_digest: Seq<Seq<char>>,
    literals: LookupFn,
) -> bool {
    if spec_is_type(arg, "Identifier"@) {
        let name = match spec_identifier_name(arg) {
            Some(n) => n,
            None => Seq::empty(),
        };
        !ambiguous.contains(name) && unsafe_digest.contains(name)
    } else if spec_is_type(arg, "CallExpression"@) && callee_digest_name(
        arg,
        ambiguous,
        unsafe_digest,
    ) {
        !spec_is_safe_encoding(
            match arg.spec_get_array("arguments"@) {
                Some(a) => first_of(a),
                None => None,
            },
            literals,
        )
    } else {
        spec_has_unsafe_digest_encoding(arg, literals)
    }
}

/// Whether a call calls a name bound to an unsafe digest, not made
/// ambiguous.
pub open spec fn callee_digest_name(
    arg: JsonValue,
    ambiguous: Seq<Seq<char>>,
    unsafe_digest: Seq<Seq<char>>,
) -> bool {
    match arg.spec_get("callee"@) {
        Some(callee) => spec_is_type(callee, "Identifier"@) && match spec_identifier_name(callee) {
            Some(n) => !ambiguous.contains(n) && unsafe_digest.contains(n),
            None => false,
        },
        None => false,
    }
}

/// Whether the argument of a `bcryptjs.hash` call is a digest in an unsafe
/// encoding.
pub fn is_unsafe_hash_argument(
    hash_argument: Option<&JsonValue>,
    ambiguous: &IndexSet<String>,
    unsafe_digest: &IndexSet<String>,
    literals: &IdentifierLookup,
) -> (r: bool)
    ensures
        r == match hash_argument {
            Some(a) => spec_is_unsafe_hash_argument(
                *a,
                name_set_items(*ambiguous),
                name_set_items(*unsafe_digest),
                literals@,
            ),
            None => false,
        },
{
    match hash_argument {
        Some(arg) => {
            if is_identifier(arg) {
                let name = match identifier_name(arg) {
                    Some(n) => n,
                    None => "",
                };
                proof {
                    reveal_strlit("");
                    assert(""@ =~= Seq::<char>::empty());
                }
                return !name_set_contains(ambiguous, name) && name_set_contains(unsafe_digest, name);
            }
            if is_call_expression(arg) {
                let calls_digest = match arg.get("callee") {
                    Some(callee) => is_identifier(callee) && match identifier_name(callee) {
                        Some(n) => !name_set_contains(ambiguous, n) && name_set_contains(
                            unsafe_digest,
                            n,
                        ),
                        None => false,
                    },
                    None => false,
                };
                if calls_digest {
                    let encoding_arg = match arg.get_array("arguments") {
                        Some(a) => if a.len() > 0 {
                            Some(&a[0])
                        } else {
                            None
                        },
                        None => None,
                    };
                    return !is_safe_encoding_arg(encoding_arg, literals);
                }
            }
            has_unsafe_digest_encoding(Some(arg), literals)
        },
        None => has_unsafe_digest_encoding(None, literals),
    }
}

impl IsUnsafePrehash {
    pub fn new() -> (r: IsUnsafePrehash)
        ensures
            name_set_items(r.unsafe_digest_variables) == Seq::<Seq<char>>::empty(),
            name_set_items(r.ambiguous_variable_names) == Seq::<Seq<char>>::empty(),
            r.entry_point == PrehashEntryPoint::Default,
    {
        IsUnsafePrehash {
            unsafe_digest_variables: name_set_new(),
            ambiguous_variable_names: name_set_new(),
            entry_point: PrehashEntryPoint::Default,
        }
    }

    /// A traced digest chain's result was bound to `id`, its digest called
    /// with `encoding_arg` first: `id` holds an unsafe digest unless the
    /// encoding is a safe one.
    pub fn on_return_value(
        &mut self,
        identifier_or_member_expr: &str,
        id: &str,
        encoding_arg: Option<&JsonValue>,
        literals: &IdentifierLookup,
    )
        ensures
            final(self).ambiguous_variable_names == old(self).ambiguous_variable_names,
            final(self).entry_point == old(self).entry_point,
            name_set_items(final(self).unsafe_digest_variables) == if digest_chains().contains(
                identifier_or_member_expr@,
            ) && !spec_is_safe_encoding(
                match encoding_arg {
                    Some(e) => Some(*e),
                    None => None,
                },
                literals@,
            ) {
                set_insert(name_set_items(old(self).unsafe_digest_variables), id@)
            } else {
                name_set_items(old(self).unsafe_digest_variables)
            },
    {
        let chains = strings(
            &[
                "crypto.createHash.update.digest",
                "crypto.createHash.update.digest.toString",
                "crypto.createHash.digest",
                "crypto.createHash.digest.toString",
                "crypto.createHmac.update.digest",
                "crypto.createHmac.update.digest.toString",
                "crypto.createHmac.digest",
                "crypto.createHmac.digest.toString",
            ],
        );
        proof {
            assert(view_strings(chains@) =~= digest_chains());
        }
        if !strings_contain(&chains, identifier_or_member_expr) {
            return;
        }
        if !is_safe_encoding_arg(encoding_arg, literals) {
            let _ = name_set_insert(&mut self.unsafe_digest_variables, to_string(id));
        }
    }

    /// The parameters of a function shadow names: they are ambiguous from
    /// now on.
    pub fn mark_ambiguous_params(&mut self, names: &Vec<String>)
        ensures
            final(self).unsafe_digest_variables == old(self).unsafe_digest_variables,
            final(self).entry_point == old(self).entry_point,
            name_set_items(final(self).ambiguous_variable_names) == inserted_all(
                name_set_items(old(self).ambiguous_variable_names),
                view_strings(names@),
            ),
    {
        let mut i: usize = 0;
        while i < names.len()
            invariant
                self.unsafe_digest_variables == old(self).unsafe_digest_variables,
                self.entry_point == old(self).entry_point,
                0 <= i <= names@.len(),
                name_set_items(self.ambiguous_variable_names) == inserted_all(
                    name_set_items(old(self).ambiguous_variable_names),
                    view_strings(names@).take(i as int),
                ),
            decreases names.len() - i,
        {
            proof {
                assert(view_strings(names@).take(i + 1).drop_last() =~= view_strings(names@).take(
                    i as int,
                ));
            }
            let _ = name_set_insert(&mut self.ambiguous_variable_names, names[i].clone());
            i = i + 1;
        }
        proof {
            assert(view_strings(names@).take(names@.len() as int) =~= view_strings(names@));
        }
    }

    /// Whether a `bcryptjs.hash` call hashes a digest in an unsafe encoding.
    pub fn bcrypt_hash_call(&self, bcrypt_node: &JsonValue, literals: &IdentifierLookup) -> (r: bool)
        ensures
            r == match bcrypt_node.spec_get_array("arguments"@) {
                Some(args) => args.len() > 0 && spec_is_unsafe_hash_argument(
                    args[0],
                    name_set_items(self.ambiguous_variable_names),
                    name_set_items(self.unsafe_digest_variables),
                    literals@,
                ),
                None => false,
            },
    {
        let hash_argument = match bcrypt_node.get_array("arguments") {
            Some(args) => if args.len() > 0 {
                Some(&args[0])
            } else {
                None
            },
            None => None,
        };
        is_unsafe_hash_argument(
            hash_argument,
            &self.ambiguous_variable_names,
            &self.unsafe_digest_variables,
            literals,
        )
    }

    /// The validator, on a file that imports both `bcryptjs` and `crypto`
    /// (`imports_both`): a function whose parameters shadow an unsafe digest
    /// name (the parameters are marked next), or a call that the tracer
    /// resolved (`traced_data`) to `bcryptjs.hash` or `bcryptjs.hashSync`.
    pub fn validate_node(&mut self, node: &JsonValue, imports_both: bool, traced_data: Option<&str>) -> (r:
        Option<Vec<String>>)
        ensures
            final(self).unsafe_digest_variables == old(self).unsafe_digest_variables,
            final(self).ambiguous_variable_names == old(self).ambiguous_variable_names,
            !imports_both ==> r is None && final(self).entry_point == old(self).entry_point,
            imports_both && spec_is_function_node(*node) ==> {
                let names = spec_param_names(param_nodes(*node));
                if exists|k: int|
                    0 <= k < names.len() && name_set_items(old(self).unsafe_digest_variables).contains(
                        #[trigger] names[k],
                    ) {
                    &&& r matches Some(v) && view_strings(v@) == names
                    &&& final(self).entry_point == PrehashEntryPoint::MarkAmbiguousParams
                } else {
                    r is None && final(self).entry_point == old(self).entry_point
                }
            },
            imports_both && !spec_is_function_node(*node) ==> {
                &&& final(self).entry_point == PrehashEntryPoint::Default
                &&& (r is Some <==> match traced_data {
                    Some(t) => t@ == "bcryptjs.hash"@ || t@ == "bcryptjs.hashSync"@,
                    None => false,
                })
                &&& r matches Some(v) ==> v@.len() == 0
            },
    {
        if !imports_both {
            return None;
        }
        if is_function_node(node) {
            let param_names = match node.get_array("params") {
                Some(params) => get_param_names(params.as_slice()),
                None => Vec::new(),
            };
            proof {
                if node.spec_get_array("params"@) is None {
                    assert(view_strings(param_names@) =~= spec_param_names(Seq::empty()));
                }
            }
            let ghost names = view_strings(param_names@);
            let mut k: usize = 0;
            while k < param_names.len()
                invariant
                    names == view_strings(param_names@),
                    names == spec_param_names(param_nodes(*node)),
                    imports_both,
                    spec_is_function_node(*node),
                    self.unsafe_digest_variables == old(self).unsafe_digest_variables,
                    self.ambiguous_variable_names == old(self).ambiguous_variable_names,
                    self.entry_point == old(self).entry_point,
                    0 <= k <= param_names@.len(),
                    forall|j: int|
                        0 <= j < k ==> !name_set_items(self.unsafe_digest_variables).contains(
                            #[trigger] names[j],
                        ),
                decreases param_names.len() - k,
            {
                if name_set_contains(&self.unsafe_digest_variables, param_names[k].as_str()) {
                    proof {
                        assert(names[k as int] == param_names@[k as int]@);
                        let all = spec_param_names(param_nodes(*node));
                        assert(name_set_items(old(self).unsafe_digest_variables).contains(all[k as int]));
                    }
                    self.entry_point = PrehashEntryPoint::MarkAmbiguousParams;
                    return Some(param_names);
                }
                k = k + 1;
            }
            return None;
        }
        self.entry_point = PrehashEntryPoint::Default;
        let is_hash = match traced_data {
            Some(t) => str_eq(t, "bcryptjs.hash") || str_eq(t, "bcryptjs.hashSync"),
            None => false,
        };
        if is_hash {
            Some(Vec::new())
        } else {
            None
        }
    }
}

} // verus!

verus! {

impl IsUnsafePrehash {
    /// The names the probe asks the variable tracer to follow.
    pub fn initialize(&self) -> (r: Vec<TraceRequest>)
        ensures
            view_traces(r@) == spec_traces(seq!["bcryptjs.hash"@, "bcryptjs.hashSync"@], false, Some("bcryptjs"@)) + spec_traces(seq!["crypto.createHash.update.digest"@, "crypto.createHash.update.digest.toString"@, "crypto.createHash.digest"@, "crypto.createHash.digest.toString"@, "crypto.createHmac.update.digest"@, "crypto.createHmac.update.digest.toString"@, "crypto.createHmac.digest"@, "crypto.createHmac.digest.toString"@], true, Some("crypto"@)),
    {
        let mut r = traces(&["bcryptjs.hash", "bcryptjs.hashSync"], false, Some("bcryptjs"));
        proof {
            assert(view_traces(r@) =~= spec_traces(seq!["bcryptjs.hash"@, "bcryptjs.hashSync"@], false, Some("bcryptjs"@)));
        }
        let mut more = traces(&["crypto.createHash.update.digest", "crypto.createHash.update.digest.toString", "crypto.createHash.digest", "crypto.createHash.digest.toString", "crypto.createHmac.update.digest", "crypto.createHmac.update.digest.toString", "crypto.createHmac.digest", "crypto.createHmac.digest.toString"], true, Some("crypto"));
        proof {
            assert(view_traces(more@) =~= spec_traces(seq!["crypto.createHash.update.digest"@, "crypto.createHash.update.digest.toString"@, "crypto.createHash.digest"@, "crypto.createHash.digest.toString"@, "crypto.createHmac.update.digest"@, "crypto.createHmac.update.digest.toString"@, "crypto.createHmac.digest"@, "crypto.createHmac.digest.toString"@], true, Some("crypto"@)));
        }
        let ghost before = r@;
        r.append(&mut more);
        proof {
            assert(view_traces(r@) =~= spec_traces(seq!["bcryptjs.hash"@, "bcryptjs.hashSync"@], false, Some("bcryptjs"@)) + spec_traces(seq!["crypto.createHash.update.digest"@, "crypto.createHash.update.digest.toString"@, "crypto.createHash.digest"@, "crypto.createHash.digest.toString"@, "crypto.createHmac.update.digest"@, "crypto.createHmac.update.digest.toString"@, "crypto.createHmac.digest"@, "crypto.createHmac.digest.toString"@], true, Some("crypto"@)));
        }
        r
    }
}

} // verus!
