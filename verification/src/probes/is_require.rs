//! The `isRequire` probe.

use vstd::prelude::*;

use indexmap::IndexSet;

use crate::base64::{base64_decode_to_string, decode_sextets, sextets};
use crate::collections::{name_set_insert, name_set_items, name_set_new, set_insert};
use crate::estree::functions::{
    array_expression_to_string, call_expression_identifier, concat_binary_expression_parts,
    get_call_expression_identifier, GetCallExpressionIdentifierOptions,
    get_call_expression_arguments, get_member_expression_identifier, spec_array_strings,
    spec_call_arguments, spec_call_identifier, spec_concat_binary, spec_member_parts,
};
use crate::estree::types::{
    is_call_expression, is_member_expression, is_string_literal, is_type, node_type, no_lookup,
    spec_is_string_literal, spec_is_type, spec_node_type, IdentifierLookup, LookupFn,
};
use crate::hex::{decode_hex_lossy, is_hex_str, spec_decode_hex, spec_is_hex, spec_utf8_lossy};
use crate::json::JsonValue;
use crate::posix_path::{posix_join, spec_posix_join, view_parts};
use crate::probe::{opt_view, ProbeInfo};
use crate::probes::strings;
use crate::text::{concat, join, join_seq, str_eq, to_string, trim, trim_seq, view_strings};
use vstd::string::StringSliceAdditionalSpecFns;
use vstd::utf8::encode_utf8;

verus! {

/// The `isRequire` probe.
pub struct IsRequire;

impl IsRequire {
    pub fn name(&self) -> (r: String)
        ensures
            r@ == "isRequire"@,
    {
        to_string("isRequire")
    }

    /// The ESTree node types the probe handles.
    pub fn node_types(&self) -> (r: Option<Vec<String>>)
        ensures
            match r {
                Some(v) => Some(view_strings(v@)),
                None => None::<Seq<Seq<char>>>,
            } == Some(seq!["CallExpression"@]),
    {
        Some(strings(&["CallExpression"]))
    }

    pub fn break_on_match(&self) -> (r: bool)
        ensures
            r == true,
    {
        true
    }

    pub fn break_group(&self) -> (r: Option<String>)
        ensures
            opt_view(r) == Some("import"@),
    {
        Some(to_string("import"))
    }

    /// What the runner needs to know of the probe.
    pub fn info(&self) -> (r: ProbeInfo)
        ensures
            r.name@ == "isRequire"@,
            match r.node_types {
                Some(v) => Some(view_strings(v@)),
                None => None::<Seq<Seq<char>>>,
            } == Some(seq!["CallExpression"@]),
            r.break_on_match == true,
            opt_view(r.break_group) == Some("import"@),
    {
        ProbeInfo {
            name: self.name(),
            node_types: self.node_types(),
            break_on_match: self.break_on_match(),
            break_group: self.break_group(),
        }
    }
}

} // verus!

verus! {

/// `require` under another name (`const r = require; r("http")`): the
/// called name, when the tracer reports it as `require`. `traced` gives,
/// for each name the tracer follows, the name it stands for.
pub open spec fn spec_node_require(node: JsonValue, traced: LookupFn) -> Option<Seq<char>> {
    match spec_call_identifier(node, no_lookup(), false) {
        Some(id) => if traced(id) == Some("require"@) {
            Some(id)
        } else {
            None
        },
        None => None,
    }
}

/// The validator of a call of `require` under another name.
pub fn validate_node_require(node: &JsonValue, traced: &IdentifierLookup) -> (r: Option<String>)
    ensures
        opt_view(r) == spec_node_require(*node, traced@),
{
    let options = GetCallExpressionIdentifierOptions {
        external_identifier_lookup: IdentifierLookup::noop(),
        resolve_call_expression: false,
    };
    let id = match get_call_expression_identifier(node, &options) {
        Some(id) => id,
        None => {
            return None;
        },
    };
    match traced.lookup(id.as_str()) {
        Some(name) => {
            if str_eq(name.as_str(), "require") {
                Some(id)
            } else {
                None
            }
        },
        None => None,
    }
}

/// `eval("require")(...)`: the called name, when it is `eval` and what it
/// calls is itself a call whose first argument spells `require`.
pub open spec fn spec_eval_require(node: JsonValue) -> Option<Seq<char>> {
    match (spec_call_identifier(node, no_lookup(), true), node.spec_get("callee"@)) {
        (Some(id), Some(callee)) => {
            if id == "eval"@ && spec_is_type(callee, "CallExpression"@) {
                match spec_call_arguments(callee, no_lookup()) {
                    Some(args) => if args[0] == "require"@ {
                        Some(id)
                    } else {
                        None
                    },
                    None => None,
                }
            } else {
                None
            }
        },
        _ => None,
    }
}

/// The validator of `eval("require")("http")`: the called name (`eval`)
/// when the node is such a call.
pub fn validate_node_eval_require(node: &JsonValue) -> (r: Option<String>)
    ensures
        opt_view(r) == spec_eval_require(*node),
{
    let id = match call_expression_identifier(node) {
        Some(id) => id,
        None => {
            return None;
        },
    };
    if !str_eq(id.as_str(), "eval") {
        return None;
    }
    let callee = match node.get("callee") {
        Some(c) => c,
        None => {
            return None;
        },
    };
    if !is_call_expression(callee) {
        return None;
    }
    let args = match get_call_expression_arguments(callee, &IdentifierLookup::noop()) {
        Some(args) => args,
        None => {
            return None;
        },
    };
    if str_eq(args[0].as_str(), "require") {
        Some(id)
    } else {
        None
    }
}

/// What the probe does with a `require` call, as the plain outcome.
pub enum RequireStep {
    /// The dependency is recorded.
    Dependency(Seq<char>),
    /// An `unsafe-import` warning is raised.
    UnsafeImport,
    /// The argument is a call: it is walked for the dependencies it builds.
    WalkCall,
    /// Nothing is recorded.
    Nothing,
}

/// What the probe does with a `require` call.
pub enum RequireAction {
    /// Record this dependency.
    Dependency(String),
    /// Raise an `unsafe-import` warning.
    UnsafeImport,
    /// Walk the argument, a call, for the dependencies it builds.
    WalkCall,
    /// Record nothing.
    Nothing,
}

impl RequireAction {
    pub open spec fn step(self) -> RequireStep {
        match self {
            RequireAction::Dependency(s) => RequireStep::Dependency(s@),
            RequireAction::UnsafeImport => RequireStep::UnsafeImport,
            RequireAction::WalkCall => RequireStep::WalkCall,
            RequireAction::Nothing => RequireStep::Nothing,
        }
    }
}

/// The step for the first argument `arg` of a `require` call, where `lk`
/// gives the literal values of identifiers: a traced identifier, a string
/// literal, an array of pieces or a `+` concatenation gives its string; a
/// call is walked; anything else cannot be resolved.
pub open spec fn spec_require_argument(arg: JsonValue, lk: LookupFn) -> RequireStep {
    match spec_node_type(arg) {
        Some(t) => if t == "Identifier"@ {
            match lk(
                match arg.spec_get_str("name"@) {
                    Some(n) => n,
                    None => Seq::empty(),
                },
            ) {
                Some(v) => RequireStep::Dependency(v),
                None => RequireStep::UnsafeImport,
            }
        } else if t == "Literal"@ {
            if spec_is_string_literal(arg) {
                RequireStep::Dependency(
                    match arg.spec_get_str("value"@) {
                        Some(v) => v,
                        None => Seq::empty(),
                    },
                )
            } else {
                RequireStep::Nothing
            }
        } else if t == "ArrayExpression"@ {
            let value = trim_seq(spec_array_strings(arg, lk, true).flatten());
            if value.len() == 0 {
                RequireStep::UnsafeImport
            } else {
                RequireStep::Dependency(value)
            }
        } else if t == "BinaryExpression"@ {
            if arg.spec_get_str("operator"@) != Some("+"@) {
                RequireStep::UnsafeImport
            } else {
                match spec_concat_binary(arg, lk, true) {
                    Some(parts) => RequireStep::Dependency(parts.flatten()),
                    None => RequireStep::UnsafeImport,
                }
            }
        } else if t == "CallExpression"@ {
            RequireStep::WalkCall
        } else {
            RequireStep::UnsafeImport
        },
        None => RequireStep::UnsafeImport,
    }
}

/// The step for a `require` call node: nothing when it has no first
/// argument, else the step for that argument.
pub open spec fn spec_require_step(node: JsonValue, lk: LookupFn) -> RequireStep {
    match node.spec_get_array("arguments"@) {
        Some(args) => if args.len() == 0 {
            RequireStep::Nothing
        } else {
            spec_require_argument(args[0], lk)
        },
        None => RequireStep::Nothing,
    }
}

/// `require("x")`: a call whose first argument is a string literal records
/// that string as a dependency, whatever identifiers the tracer knows.
pub proof fn lemma_string_literal_is_dependency(
    node: JsonValue,
    args: Seq<JsonValue>,
    value: String,
    number: Option<i64>,
    lk: LookupFn,
)
    requires
        node.spec_get_array("arguments"@) == Some(args),
        args.len() > 0,
        args[0].spec_get_str("type"@) == Some("Literal"@),
        args[0].spec_get("value"@) == Some(JsonValue::String(value, number)),
    ensures
        spec_require_step(node, lk) == RequireStep::Dependency(value@),
{
    reveal_strlit("Literal");
    reveal_strlit("Identifier");
    assert("Literal"@.len() != "Identifier"@.len());
    assert(spec_node_type(args[0]) == Some("Literal"@));
    assert(spec_is_string_literal(args[0]));
}

/// `require(name)`: a call whose first argument is an identifier that the
/// tracer bound to the string `v` records `v` as a dependency; one it did
/// not bind raises an `unsafe-import` warning.
pub proof fn lemma_traced_identifier_is_dependency(
    node: JsonValue,
    args: Seq<JsonValue>,
    name: Seq<char>,
    lk: LookupFn,
)
    requires
        node.spec_get_array("arguments"@) == Some(args),
        args.len() > 0,
        args[0].spec_get_str("type"@) == Some("Identifier"@),
        args[0].spec_get_str("name"@) == Some(name),
    ensures
        spec_require_step(node, lk) == match lk(name) {
            Some(v) => RequireStep::Dependency(v),
            None => RequireStep::UnsafeImport,
        },
{
    assert(spec_node_type(args[0]) == Some("Identifier"@));
}

/// What the `isRequire` probe does with a call: `literals` gives the
/// literal values of the identifiers the tracer follows.
pub fn require_action(node: &JsonValue, literals: &IdentifierLookup) -> (r: RequireAction)
    ensures
        r.step() == spec_require_step(*node, literals@),
{
    let args = match node.get_array("arguments") {
        Some(args) => args,
        None => {
            return RequireAction::Nothing;
        },
    };
    if args.len() == 0 {
        return RequireAction::Nothing;
    }
    let arg = &args[0];
    let t = match node_type(arg) {
        Some(t) => t,
        None => {
            return RequireAction::UnsafeImport;
        },
    };
    if str_eq(t, "Identifier") {
        let name = match arg.get_str("name") {
            Some(n) => n,
            None => "",
        };
        proof {
            reveal_strlit("");
            assert(""@ =~= Seq::<char>::empty());
        }
        match literals.lookup(name) {
            Some(v) => RequireAction::Dependency(v),
            None => RequireAction::UnsafeImport,
        }
    } else if str_eq(t, "Literal") {
        if is_string_literal(arg) {
            let value = match arg.get_str("value") {
                Some(v) => v,
                None => "",
            };
            proof {
                reveal_strlit("");
                assert(""@ =~= Seq::<char>::empty());
            }
            RequireAction::Dependency(to_string(value))
        } else {
            RequireAction::Nothing
        }
    } else if str_eq(t, "ArrayExpression") {
        let joined = concat(&array_expression_to_string(arg, literals));
        let value = trim(joined.as_str());
        if value.as_str().is_empty() {
            RequireAction::UnsafeImport
        } else {
            RequireAction::Dependency(value)
        }
    } else if str_eq(t, "BinaryExpression") {
        let is_plus = match arg.get_str("operator") {
            Some(op) => str_eq(op, "+"),
            None => false,
        };
        if !is_plus {
            return RequireAction::UnsafeImport;
        }
        match concat_binary_expression_parts(arg, literals, true) {
            Some(parts) => RequireAction::Dependency(concat(&parts)),
            None => RequireAction::UnsafeImport,
        }
    } else if str_eq(t, "CallExpression") {
        RequireAction::WalkCall
    } else {
        RequireAction::UnsafeImport
    }
}

} // verus!

verus! {

/// The values of the string literals `args`, when every one of them is a
/// string literal.
pub open spec fn literal_values(args: Seq<JsonValue>) -> Option<Seq<Seq<char>>> {
    if forall|i: int| 0 <= i < args.len() ==> spec_is_string_literal(#[trigger] args[i]) {
        Some(
            Seq::new(
                args.len(),
                |i: int|
                    match args[i].spec_get_str("value"@) {
                        Some(v) => v,
                        None => Seq::empty(),
                    },
            ),
        )
    } else {
        None
    }
}

/// The dependency that `atob(...)` spells: the base64 decoding of its first
/// argument's string.
pub open spec fn spec_atob_dependency(node: JsonValue, lk: LookupFn) -> Option<Seq<char>> {
    match spec_call_arguments(node, lk) {
        Some(args) => Some(spec_utf8_lossy(decode_sextets(sextets(encode_utf8(args[0]))))),
        None => None,
    }
}

/// The dependency that `Buffer.from([...])` spells: its array's pieces,
/// concatenated and trimmed.
pub open spec fn spec_buffer_from_dependency(node: JsonValue) -> Option<Seq<char>> {
    match node.spec_get_array("arguments"@) {
        Some(args) => if args.len() > 0 && spec_is_type(args[0], "ArrayExpression"@) {
            Some(trim_seq(spec_array_strings(args[0], no_lookup(), true).flatten()))
        } else {
            None
        },
        None => None,
    }
}

/// The name a call calls, as the walker reads it: the dotted parts of a
/// member expression, else the callee's name.
pub open spec fn spec_full_name(node: JsonValue) -> Seq<char> {
    match node.spec_get("callee"@) {
        Some(callee) => if spec_is_type(callee, "MemberExpression"@) {
            join_seq(spec_member_parts(callee, no_lookup()), "."@)
        } else {
            match callee.spec_get_str("name"@) {
                Some(n) => n,
                None => Seq::empty(),
            }
        },
        None => Seq::empty(),
    }
}

/// The dependencies after `path.join(...)`, and whether the warning is
/// still called for.
pub open spec fn spec_path_join_effect(items: Seq<Seq<char>>, warn: bool, node: JsonValue) -> (
    Seq<Seq<char>>,
    bool,
) {
    match node.spec_get_array("arguments"@) {
        Some(args) => match literal_values(args) {
            Some(values) => (set_insert(items, spec_posix_join(values)), false),
            None => (items, warn),
        },
        None => (items, warn),
    }
}

/// The value of a `Literal` node whose string value is hexadecimal.
pub open spec fn hex_literal_value(node: JsonValue) -> Option<Seq<char>> {
    if spec_is_type(node, "Literal"@) {
        match node.spec_get_str("value"@) {
            Some(v) => if spec_is_hex(v) {
                Some(v)
            } else {
                None
            },
            None => None,
        }
    } else {
        None
    }
}

/// The string value of a `Literal` node, "" where it has none.
pub open spec fn literal_value_or_empty(node: JsonValue) -> Seq<char> {
    match node.spec_get_str("value"@) {
        Some(v) => v,
        None => Seq::empty(),
    }
}

/// One step of the walk over the calls of a `require(...)` argument: the
/// dependencies after it, whether the warning is still called for, and
/// whether the node's children are skipped. A call whose first argument is a
/// hexadecimal string literal records its decoding and skips its children;
/// else the traced name of the call (`traced` maps a name to the one it
/// stands for) picks the handler.
pub open spec fn spec_enter(
    items: Seq<Seq<char>>,
    warn: bool,
    node: JsonValue,
    traced: LookupFn,
    lk: LookupFn,
) -> (Seq<Seq<char>>, bool, bool) {
    if !spec_is_type(node, "CallExpression"@) {
        (items, warn, false)
    } else {
        match node.spec_get_array("arguments"@) {
            None => (items, warn, false),
            Some(args) => if args.len() == 0 {
                (items, warn, false)
            } else {
                let root = args[0];
                if hex_literal_value(root) is Some {
                    (set_insert(items, spec_decode_hex(hex_literal_value(root)->0)), warn, true)
                } else {
                    let full = spec_full_name(node);
                    let name = match traced(full) {
                        Some(t) => t,
                        None => full,
                    };
                    if name == "atob"@ {
                        (
                            match spec_atob_dependency(node, lk) {
                                Some(d) => set_insert(items, d),
                                None => items,
                            },
                            warn,
                            false,
                        )
                    } else if name == "Buffer.from"@ {
                        (
                            match spec_buffer_from_dependency(node) {
                                Some(d) => set_insert(items, d),
                                None => items,
                            },
                            warn,
                            false,
                        )
                    } else if name == "require.resolve"@ {
                        (
                            if spec_is_string_literal(root) {
                                set_insert(items, literal_value_or_empty(root))
                            } else {
                                items
                            },
                            warn,
                            false,
                        )
                    } else if name == "path.join"@ || name == "path.resolve"@ {
                        let e = spec_path_join_effect(items, warn, node);
                        (e.0, e.1, false)
                    } else {
                        (items, warn, false)
                    }
                }
            },
        }
    }
}

/// Collects the dependencies that the calls inside a `require(...)` argument
/// build: hexadecimal literals, `atob`, `Buffer.from`, `require.resolve`,
/// `path.join` and `path.resolve`.
pub struct RequireCallExpressionWalker {
    pub dependencies: IndexSet<String>,
    /// Whether the walk still calls for an `unsafe-import` warning.
    pub trigger_warning: bool,
}

impl RequireCallExpressionWalker {
    /// A walker with no dependencies, that calls for the warning.
    pub fn new() -> (r: RequireCallExpressionWalker)
        ensures
            name_set_items(r.dependencies) == Seq::<Seq<char>>::empty(),
            r.trigger_warning,
    {
        RequireCallExpressionWalker { dependencies: name_set_new(), trigger_warning: true }
    }

    /// One step of the walk: handles a call node and says whether its
    /// children are skipped. `traced` maps a name to the one it stands for;
    /// `literals` gives the literal values of identifiers.
    pub fn enter(
        &mut self,
        node: &JsonValue,
        traced: &IdentifierLookup,
        literals: &IdentifierLookup,
    ) -> (skip: bool)
        ensures
            (name_set_items(final(self).dependencies), final(self).trigger_warning, skip)
                == spec_enter(
                name_set_items(old(self).dependencies),
                old(self).trigger_warning,
                *node,
                traced@,
                literals@,
            ),
    {
        if !is_call_expression(node) {
            return false;
        }
        let args = match node.get_array("arguments") {
            Some(a) => a,
            None => {
                return false;
            },
        };
        if args.len() == 0 {
            return false;
        }
        let root = &args[0];
        if is_type(root, "Literal") {
            match root.get_str("value") {
                Some(value) => {
                    if is_hex_str(value) {
                        let _ = name_set_insert(&mut self.dependencies, decode_hex_lossy(value));
                        return true;
                    }
                },
                None => {},
            }
        }
        let full_name = match node.get("callee") {
            Some(callee) => {
                if is_member_expression(callee) {
                    join(&get_member_expression_identifier(callee, &IdentifierLookup::noop()), ".")
                } else {
                    match callee.get_str("name") {
                        Some(n) => to_string(n),
                        None => String::new(),
                    }
                }
            },
            None => String::new(),
        };
        let name = match traced.lookup(full_name.as_str()) {
            Some(t) => t,
            None => full_name,
        };
        if str_eq(name.as_str(), "atob") {
            self.handle_atob(node, literals);
        } else if str_eq(name.as_str(), "Buffer.from") {
            self.handle_buffer_from(node);
        } else if str_eq(name.as_str(), "require.resolve") {
            self.handle_require_resolve(root);
        } else if str_eq(name.as_str(), "path.join") || str_eq(name.as_str(), "path.resolve") {
            self.handle_path_join(node);
        }
        false
    }

    /// `atob(...)`: records the base64 decoding of the first argument's
    /// string.
    pub fn handle_atob(&mut self, node: &JsonValue, literals: &IdentifierLookup)
        ensures
            final(self).trigger_warning == old(self).trigger_warning,
            name_set_items(final(self).dependencies) == match spec_atob_dependency(
                *node,
                literals@,
            ) {
                Some(d) => set_insert(name_set_items(old(self).dependencies), d),
                None => name_set_items(old(self).dependencies),
            },
    {
        let arguments = match get_call_expression_arguments(node, literals) {
            Some(a) => a,
            None => {
                return;
            },
        };
        let first = &arguments[0];
        let _ = name_set_insert(&mut self.dependencies, base64_decode_to_string(first.as_str()));
    }

    /// `Buffer.from([...])`: records the array's pieces, concatenated and
    /// trimmed.
    pub fn handle_buffer_from(&mut self, node: &JsonValue)
        ensures
            final(self).trigger_warning == old(self).trigger_warning,
            name_set_items(final(self).dependencies) == match spec_buffer_from_dependency(*node) {
                Some(d) => set_insert(name_set_items(old(self).dependencies), d),
                None => name_set_items(old(self).dependencies),
            },
    {
        let args = match node.get_array("arguments") {
            Some(a) => a,
            None => {
                return;
            },
        };
        if args.len() == 0 {
            return;
        }
        let element = &args[0];
        if is_type(element, "ArrayExpression") {
            let joined = concat(&array_expression_to_string(element, &IdentifierLookup::noop()));
            let name = trim(joined.as_str());
            let _ = name_set_insert(&mut self.dependencies, name);
        }
    }

    /// `require.resolve("...")`: records the string.
    pub fn handle_require_resolve(&mut self, node: &JsonValue)
        ensures
            final(self).trigger_warning == old(self).trigger_warning,
            name_set_items(final(self).dependencies) == if spec_is_string_literal(*node) {
                set_insert(
                    name_set_items(old(self).dependencies),
                    match node.spec_get_str("value"@) {
                        Some(v) => v,
                        None => Seq::empty(),
                    },
                )
            } else {
                name_set_items(old(self).dependencies)
            },
    {
        if is_string_literal(node) {
            let value = match node.get_str("value") {
                Some(v) => v,
                None => "",
            };
            proof {
                reveal_strlit("");
                assert(""@ =~= Seq::<char>::empty());
            }
            let _ = name_set_insert(&mut self.dependencies, to_string(value));
        }
    }

    /// `path.join(...)` or `path.resolve(...)` of string literals: records
    /// their POSIX join, and the warning is no longer called for.
    pub fn handle_path_join(&mut self, node: &JsonValue)
        ensures
            match node.spec_get_array("arguments"@) {
                Some(args) => match literal_values(args) {
                    Some(values) => {
                        &&& name_set_items(final(self).dependencies) == set_insert(
                            name_set_items(old(self).dependencies),
                            spec_posix_join(values),
                        )
                        &&& !final(self).trigger_warning
                    },
                    None => {
                        &&& name_set_items(final(self).dependencies) == name_set_items(
                            old(self).dependencies,
                        )
                        &&& final(self).trigger_warning == old(self).trigger_warning
                    },
                },
                None => {
                    &&& name_set_items(final(self).dependencies) == name_set_items(
                        old(self).dependencies,
                    )
                    &&& final(self).trigger_warning == old(self).trigger_warning
                },
            },
    {
        let args = match node.get_array("arguments") {
            Some(a) => a,
            None => {
                return;
            },
        };
        let mut i: usize = 0;
        while i < args.len()
            invariant
                node.spec_get_array("arguments"@) == Some(args@),
                self.dependencies == old(self).dependencies,
                self.trigger_warning == old(self).trigger_warning,
                0 <= i <= args@.len(),
                forall|k: int| 0 <= k < i ==> spec_is_string_literal(#[trigger] args@[k]),
            decreases args.len() - i,
        {
            if !is_string_literal(&args[i]) {
                proof {
                    assert(!spec_is_string_literal(args@[i as int]));
                    assert(literal_values(args@) is None);
                }
                return;
            }
            i = i + 1;
        }
        let ghost values = literal_values(args@)->0;
        let mut parts: Vec<&str> = Vec::new();
        let mut j: usize = 0;
        while j < args.len()
            invariant
                0 <= j <= args@.len(),
                literal_values(args@) == Some(values),
                view_parts(parts@) == values.take(j as int),
            decreases args.len() - j,
        {
            let value = match args[j].get_str("value") {
                Some(v) => v,
                None => "",
            };
            proof {
                reveal_strlit("");
                assert(""@ =~= Seq::<char>::empty());
            }
            let ghost before = parts@;
            parts.push(value);
            proof {
                assert(view_parts(parts@) =~= view_parts(before).push(value@));
                assert(values.take(j + 1) =~= values.take(j as int).push(values[j as int]));
            }
            j = j + 1;
        }
        proof {
            assert(values.take(args@.len() as int) =~= values);
        }
        let joined = posix_join(parts.as_slice());
        let _ = name_set_insert(&mut self.dependencies, joined);
        self.trigger_warning = false;
    }
}

} // verus!
