//! The `isPasswordShucking` probe.

use vstd::prelude::*;

use indexmap::IndexSet;

use crate::collections::{name_set_contains, name_set_insert, name_set_items, name_set_new, set_insert};
use crate::estree::functions::{
    get_member_call_expression, get_param_names, spec_is_member_call, spec_param_names,
};
use crate::estree::types::{
    identifier_name, is_call_expression, is_function_node, is_identifier, is_member_expression,
    spec_identifier_name, spec_is_function_node, spec_is_type,
};
use crate::json::JsonValue;
use crate::probe::{spec_traces, spec_traces_in_own_module, traces, traces_in_own_module, view_traces, TraceRequest, opt_view, ProbeInfo};
use crate::probes::strings;
use crate::text::{str_eq, strings_contain, to_string, view_strings};

verus! {

/// The `isPasswordShucking` probe: the names bound to the result of a
/// `crypto.createHash(...)...digest()` chain, and the names that a function
/// parameter makes ambiguous.
pub struct IsPasswordShucking {
    pub shucking_variables: IndexSet<String>,
    pub ambiguous_variable_names: IndexSet<String>,
    pub entry_point: ShuckingEntryPoint,
}

/// Which validator matched.
#[derive(Debug, Clone, Copy, PartialEq, Eq, Structural)]
pub enum ShuckingEntryPoint {
    /// A `bcryptjs.hash` call.
    Default,
    /// A function whose parameters shadow hashed names.
    MarkAmbiguousParams,
}

impl IsPasswordShucking {
    pub fn name(&self) -> (r: String)
        ensures
            r@ == "isPasswordShucking"@,
    {
        to_string("isPasswordShucking")
    }

    /// The ESTree node types the probe handles.
    pub fn node_types(&self) -> (r: Option<Vec<String>>)
        ensures
            match r {
                Some(v) => Some(view_strings(v@)),
                None => None::<Seq<Seq<char>>>,
            } == Some(seq!["CallExpression"@, "FunctionDeclaration"@, "FunctionExpression"@, "ArrowFunctionExpression"@]),
    {
        Some(strings(&["CallExpression", "FunctionDeclaration", "FunctionExpression", "ArrowFunctionExpression"]))
    }

    pub fn break_on_match(&self) -> (r: bool)
        ensures
            r == false,
    {
        false
    }

    pub fn break_group(&self) -> (r: Option<String>)
        ensures
            opt_view(r) == None::<Seq<char>>,
    {
        None
    }

    /// What the runner needs to know of the probe.
    pub fn info(&self) -> (r: ProbeInfo)
        ensures
            r.name@ == "isPasswordShucking"@,
            match r.node_types {
                Some(v) => Some(view_strings(v@)),
                None => None::<Seq<Seq<char>>>,
            } == Some(seq!["CallExpression"@, "FunctionDeclaration"@, "FunctionExpression"@, "ArrowFunctionExpression"@]),
            r.break_on_match == false,
            opt_view(r.break_group) == None::<Seq<char>>,
    {
        ProbeInfo {
            name: self.name(),
            node_types: self.node_types(),
            break_on_match: self.break_on_match(),
            break_group: self.break_group(),
        }
    }
}

} // verus!

verus! {

/// The traced functions that hash a password.
pub open spec fn bcrypt_hash_functions() -> Seq<Seq<char>> {
    seq!["bcryptjs.hash"@, "bcryptjs.hashSync"@]
}

/// The hash-and-digest chains whose results are shucked hashes.
pub open spec fn hash_digest_chains() -> Seq<Seq<char>> {
    seq![
        "crypto.createHash.update.digest"@,
        "crypto.createHash.update.digest.toString"@,
        "crypto.createHash.digest"@,
        "crypto.createHash.digest.toString"@,
    ]
}

/// Whether a chain of calls on members goes down to a `.createHash(...)`.
pub open spec fn spec_create_hash_chain(node: JsonValue) -> bool
    decreases node,
{
    if !spec_is_type(node, "CallExpression"@) {
        false
    } else {
        match node.spec_get("callee"@) {
            None => false,
            Some(callee) => if !spec_is_type(callee, "MemberExpression"@) {
                false
            } else {
                let names_create_hash = match callee.spec_get("property"@) {
                    Some(property) => spec_is_type(property, "Identifier"@) && spec_identifier_name(
                        property,
                    ) == Some("createHash"@),
                    None => false,
                };
                if names_create_hash {
                    true
                } else {
                    match callee.spec_get("object"@) {
                        Some(object) => {
                            proof {
                                node.lemma_get_decreases("callee"@);
                                callee.lemma_get_decreases("object"@);
                            }
                            spec_create_hash_chain(object)
                        },
                        None => false,
                    }
                }
            },
        }
    }
}

/// Whether a chain of calls on members goes down to a `.createHash(...)`.
pub fn is_create_hash_chain(node: Option<&JsonValue>) -> (r: bool)
    ensures
        r == match node {
            Some(n) => spec_create_hash_chain(*n),
            None => false,
        },
{
    let mut current: &JsonValue = match node {
        Some(n) => n,
        None => {
            return false;
        },
    };
    loop
        invariant
            match node {
                Some(n) => spec_create_hash_chain(*n),
                None => false,
            } == spec_create_hash_chain(*current),
        decreases *current,
    {
        if !is_call_expression(current) {
            return false;
        }
        let callee = match current.get("callee") {
            Some(c) => c,
            None => {
                return false;
            },
        };
        if !is_member_expression(callee) {
            return false;
        }
        let names_create_hash = match callee.get("property") {
            Some(property) => is_identifier(property) && match identifier_name(property) {
                Some(name) => str_eq(name, "createHash"),
                None => false,
            },
            None => false,
        };
        if names_create_hash {
            return true;
        }
        proof {
            current.lemma_get_decreases("callee"@);
            callee.lemma_get_decreases("object"@);
        }
        match callee.get("object") {
            Some(object) => {
                current = object;
            },
            None => {
                return false;
            },
        }
    }
}

/// Whether a value ends in a `.digest(...)` call, or in a `.toString(...)`
/// of one.
pub open spec fn spec_has_digest_chain(node: JsonValue) -> bool {
    spec_is_member_call(node, "digest"@) || (spec_is_member_call(node, "toString"@) && match node.spec_get(
        "callee"@,
    ) {
        Some(callee) => match callee.spec_get("object"@) {
            Some(object) => spec_is_member_call(object, "digest"@),
            None => false,
        },
        None => false,
    })
}

/// Whether a value ends in a `.digest(...)` call, or in a `.toString(...)`
/// of one.
pub fn has_digest_chain(hash_node: Option<&JsonValue>) -> (r: bool)
    ensures
        r == match hash_node {
            Some(n) => spec_has_digest_chain(*n),
            None => false,
        },
{
    let h = match hash_node {
        Some(h) => h,
        None => {
            return false;
        },
    };
    if get_member_call_expression(h, "digest").is_some() {
        return true;
    }
    let to_string_call = match get_member_call_expression(h, "toString") {
        Some(c) => c,
        None => {
            return false;
        },
    };
    match to_string_call.get("callee") {
        Some(callee) => match callee.get("object") {
            Some(object) => get_member_call_expression(object, "digest").is_some(),
            None => false,
        },
        None => false,
    }
}

/// A password hashed with a fast hash before bcrypt: a digest chain that
/// starts at `createHash`.
pub fn is_shucking_prehash(hash_node: Option<&JsonValue>) -> (r: bool)
    ensures
        r == match hash_node {
            Some(n) => spec_has_digest_chain(*n) && spec_create_hash_chain(*n),
            None => false,
        },
{
    has_digest_chain(hash_node) && is_create_hash_chain(hash_node)
}

impl IsPasswordShucking {
    pub fn new() -> (r: IsPasswordShucking)
        ensures
            name_set_items(r.shucking_variables) == Seq::<Seq<char>>::empty(),
            name_set_items(r.ambiguous_variable_names) == Seq::<Seq<char>>::empty(),
            r.entry_point == ShuckingEntryPoint::Default,
    {
        IsPasswordShucking {
            shucking_variables: name_set_new(),
            ambiguous_variable_names: name_set_new(),
            entry_point: ShuckingEntryPoint::Default,
        }
    }

    /// A traced chain's result was bound to `id`: when the chain is one of
    /// the hash-and-digest chains, `id` holds a shucked hash.
    pub fn on_return_value(&mut self, identifier_or_member_expr: &str, id: &str)
        ensures
            final(self).ambiguous_variable_names == old(self).ambiguous_variable_names,
            final(self).entry_point == old(self).entry_point,
            name_set_items(final(self).shucking_variables) == if hash_digest_chains().contains(
                identifier_or_member_expr@,
            ) {
                set_insert(name_set_items(old(self).shucking_variables), id@)
            } else {
                name_set_items(old(self).shucking_variables)
            },
    {
        let chains = strings(
            &[
                "crypto.createHash.update.digest",
                "crypto.createHash.update.digest.toString",
                "crypto.createHash.digest",
                "crypto.createHash.digest.toString",
            ],
        );
        proof {
            assert(view_strings(chains@) =~= hash_digest_chains());
        }
        if strings_contain(&chains, identifier_or_member_expr) {
            let _ = name_set_insert(&mut self.shucking_variables, to_string(id));
        }
    }

    /// The parameters of a function shadow names: they are ambiguous from
    /// now on.
    pub fn mark_ambiguous_params(&mut self, names: &Vec<String>)
        ensures
            final(self).shucking_variables == old(self).shucking_variables,
            final(self).entry_point == old(self).entry_point,
            name_set_items(final(self).ambiguous_variable_names) == inserted_all(
                name_set_items(old(self).ambiguous_variable_names),
                view_strings(names@),
            ),
    {
        let mut i: usize = 0;
        while i < names.len()
            invariant
                self.shucking_variables == old(self).shucking_variables,
                self.entry_point == old(self).entry_point,
                0 <= i <= names@.len(),
                name_set_items(self.ambiguous_variable_names) == inserted_all(
                    name_set_items(old(self).ambiguous_variable_names),
                    view_strings(names@).take(i as int),
                ),
            decreases names.len() - i,
        {
            proof {
                assert(view_strings(names@).take(i + 1).drop_last() =~= view_strings(names@).take(
                    i as int,
                ));
            }
            let _ = name_set_insert(&mut self.ambiguous_variable_names, names[i].clone());
            i = i + 1;
        }
        proof {
            assert(view_strings(names@).take(names@.len() as int) =~= view_strings(names@));
        }
    }

    /// Whether a `bcryptjs.hash` call hashes a shucked hash: its first
    /// argument is a name bound to one and not made ambiguous, or is itself
    /// a hash-and-digest chain.
    pub fn bcrypt_hash_call(&self, bcrypt_node: &JsonValue) -> (r: bool)
        ensures
            r == spec_shucks(
                *bcrypt_node,
                name_set_items(self.shucking_variables),
                name_set_items(self.ambiguous_variable_names),
            ),
    {
        let hash_argument = match bcrypt_node.get_array("arguments") {
            Some(args) => if args.len() > 0 {
                Some(&args[0])
            } else {
                None
            },
            None => None,
        };
        let is_variable_shucking = match hash_argument {
            Some(arg) => is_identifier(arg) && match identifier_name(arg) {
                Some(name) => !name_set_contains(&self.ambiguous_variable_names, name)
                    && name_set_contains(&self.shucking_variables, name),
                None => false,
            },
            None => false,
        };
        is_variable_shucking || is_shucking_prehash(hash_argument)
    }

    /// The validator, on a file that imports both `bcryptjs` and `crypto`
    /// (`imports_both`): a function whose parameters shadow a hashed name
    /// (the parameters are marked next), or a call that the tracer resolved
    /// (`traced_data`) to `bcryptjs.hash` or `bcryptjs.hashSync`.
    pub fn validate_node(&mut self, node: &JsonValue, imports_both: bool, traced_data: Option<&str>) -> (r:
        Option<Vec<String>>)
        ensures
            final(self).shucking_variables == old(self).shucking_variables,
            final(self).ambiguous_variable_names == old(self).ambiguous_variable_names,
            !imports_both ==> r is None && final(self).entry_point == old(self).entry_point,
            imports_both && spec_is_function_node(*node) ==> {
                let names = spec_param_names(param_nodes(*node));
                if exists|k: int|
                    0 <= k < names.len() && name_set_items(old(self).shucking_variables).contains(
                        #[trigger] names[k],
                    ) {
                    &&& r matches Some(v) && view_strings(v@) == names
                    &&& final(self).entry_point == ShuckingEntryPoint::MarkAmbiguousParams
                } else {
                    r is None && final(self).entry_point == old(self).entry_point
                }
            },
            imports_both && !spec_is_function_node(*node) ==> {
                &&& final(self).entry_point == ShuckingEntryPoint::Default
                &&& (r is Some <==> match traced_data {
                    Some(t) => bcrypt_hash_functions().contains(t@),
                    None => false,
                })
                &&& r matches Some(v) ==> v@.len() == 0
            },
    {
        if !imports_both {
            return None;
        }
        if is_function_node(node) {
            let param_names = match node.get_array("params") {
                Some(params) => get_param_names(params.as_slice()),
                None => Vec::new(),
            };
            proof {
                if node.spec_get_array("params"@) is None {
                    assert(view_strings(param_names@) =~= spec_param_names(Seq::empty()));
                }
            }
            let ghost names = view_strings(param_names@);
            let mut k: usize = 0;
            while k < param_names.len()
                invariant
                    names == view_strings(param_names@),
                    names == spec_param_names(param_nodes(*node)),
                    imports_both,
                    spec_is_function_node(*node),
                    self.shucking_variables == old(self).shucking_variables,
                    self.ambiguous_variable_names == old(self).ambiguous_variable_names,
                    self.entry_point == old(self).entry_point,
                    0 <= k <= param_names@.len(),
                    forall|j: int|
                        0 <= j < k ==> !name_set_items(self.shucking_variables).contains(
                            #[trigger] names[j],
                        ),
                decreases param_names.len() - k,
            {
                if name_set_contains(&self.shucking_variables, param_names[k].as_str()) {
                    proof {
                        assert(names[k as int] == param_names@[k as int]@);
                        assert(name_set_items(old(self).shucking_variables).contains(names[k as int]));
                        let all = spec_param_names(param_nodes(*node));
                        assert(exists|j: int|
                            0 <= j < all.len() && name_set_items(old(self).shucking_variables).contains(
                                #[trigger] all[j],
                            ));
                    }
                    self.entry_point = ShuckingEntryPoint::MarkAmbiguousParams;
                    return Some(param_names);
                }
                k = k + 1;
            }
            return None;
        }
        self.entry_point = ShuckingEntryPoint::Default;
        let is_hash = match traced_data {
            Some(t) => {
                let functions = strings(&["bcryptjs.hash", "bcryptjs.hashSync"]);
                proof {
                    assert(view_strings(functions@) =~= bcrypt_hash_functions());
                }
                strings_contain(&functions, t)
            },
            None => false,
        };
        if is_hash {
            Some(Vec::new())
        } else {
            None
        }
    }
}

/// The parameters of a function node (none where it has no list).
pub open spec fn param_nodes(node: JsonValue) -> Seq<JsonValue> {
    match node.spec_get_array("params"@) {
        Some(p) => p,
        None => Seq::empty(),
    }
}

/// The items after inserting each of `names` in turn.
pub open spec fn inserted_all(items: Seq<Seq<char>>, names: Seq<Seq<char>>) -> Seq<Seq<char>>
    decreases names.len(),
{
    if names.len() == 0 {
        items
    } else {
        set_insert(inserted_all(items, names.drop_last()), names.last())
    }
}

/// Whether a `bcryptjs.hash` call hashes a shucked hash.
pub open spec fn spec_shucks(node: JsonValue, shucking: Seq<Seq<char>>, ambiguous: Seq<Seq<char>>) -> bool {
    match node.spec_get_array("arguments"@) {
        Some(args) => if args.len() > 0 {
            let arg = args[0];
            (spec_is_type(arg, "Identifier"@) && match spec_identifier_name(arg) {
                Some(name) => !ambiguous.contains(name) && shucking.contains(name),
                None => false,
            }) || (spec_has_digest_chain(arg) && spec_create_hash_chain(arg))
        } else {
            false
        },
        None => false,
    }
}

} // verus!

verus! {

impl IsPasswordShucking {
    /// The names the probe asks the variable tracer to follow.
    pub fn initialize(&self) -> (r: Vec<TraceRequest>)
        ensures
            view_traces(r@) == spec_traces(seq!["bcryptjs.hash"@, "bcryptjs.hashSync"@], false, Some("bcryptjs"@)) + spec_traces(seq!["crypto.createHash.update.digest"@, "crypto.createHash.update.digest.toString"@, "crypto.createHash.digest"@, "crypto.createHash.digest.toString"@], true, Some("crypto"@)),
    {
        let mut r = traces(&["bcryptjs.hash", "bcryptjs.hashSync"], false, Some("bcryptjs"));
        proof {
            assert(view_traces(r@) =~= spec_traces(seq!["bcryptjs.hash"@, "bcryptjs.hashSync"@], false, Some("bcryptjs"@)));
        }
        let mut more = traces(&["crypto.createHash.update.digest", "crypto.createHash.update.digest.toString", "crypto.createHash.digest", "crypto.createHash.digest.toString"], true, Some("crypto"));
        proof {
            assert(view_traces(more@) =~= spec_traces(seq!["crypto.createHash.update.digest"@, "crypto.createHash.update.digest.toString"@, "crypto.createHash.digest"@, "crypto.createHash.digest.toString"@], true, Some("crypto"@)));
        }
        let ghost before = r@;
        r.append(&mut more);
        proof {
            assert(view_traces(r@) =~= spec_traces(seq!["bcryptjs.hash"@, "bcryptjs.hashSync"@], false, Some("bcryptjs"@)) + spec_traces(seq!["crypto.createHash.update.digest"@, "crypto.createHash.update.digest.toString"@, "crypto.createHash.digest"@, "crypto.createHash.digest.toString"@], true, Some("crypto"@)));
        }
        r
    }
}

} // verus!
