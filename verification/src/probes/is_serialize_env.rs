//! The `isSerializeEnv` probe.

use vstd::prelude::*;

use crate::estree::functions::{get_member_expression_identifier, spec_member_parts};
use crate::estree::types::{
    identifier_name, is_identifier, is_member_expression, no_lookup, spec_identifier_name,
    spec_is_type, IdentifierLookup, LookupFn,
};
use crate::json::JsonValue;
use crate::probe::{spec_traces, spec_traces_in_own_module, traces, traces_in_own_module, view_traces, TraceRequest, opt_view, ProbeInfo, ProbeReturn, Sensitivity};
use crate::probes::strings;
use crate::text::{join, join_seq, str_eq, to_string, view_strings};

verus! {

/// Which validator matched, and so which handler runs.
#[derive(Debug, Clone, Copy, PartialEq, Eq, Structural)]
pub enum EntryPoint {
    /// `JSON.stringify(process.env)` or of a traced value.
    Default,
    /// A bare `process.env`.
    ProcessEnv,
}

/// The `isSerializeEnv` probe.
pub struct IsSerializeEnv {
    pub entry_point: EntryPoint,
}

impl IsSerializeEnv {
    pub fn name(&self) -> (r: String)
        ensures
            r@ == "isSerializeEnv"@,
    {
        to_string("isSerializeEnv")
    }

    /// The ESTree node types the probe handles.
    pub fn node_types(&self) -> (r: Option<Vec<String>>)
        ensures
            match r {
                Some(v) => Some(view_strings(v@)),
                None => None::<Seq<Seq<char>>>,
            } == Some(seq!["CallExpression"@, "MemberExpression"@]),
    {
        Some(strings(&["CallExpression", "MemberExpression"]))
    }

    pub fn break_on_match(&self) -> (r: bool)
        ensures
            r == false,
    {
        false
    }

    pub fn break_group(&self) -> (r: Option<String>)
        ensures
            opt_view(r) == None::<Seq<char>>,
    {
        None
    }

    /// What the runner needs to know of the probe.
    pub fn info(&self) -> (r: ProbeInfo)
        ensures
            r.name@ == "isSerializeEnv"@,
            match r.node_types {
                Some(v) => Some(view_strings(v@)),
                None => None::<Seq<Seq<char>>>,
            } == Some(seq!["CallExpression"@, "MemberExpression"@]),
            r.break_on_match == false,
            opt_view(r.break_group) == None::<Seq<char>>,
    {
        ProbeInfo {
            name: self.name(),
            node_types: self.node_types(),
            break_on_match: self.break_on_match(),
            break_group: self.break_group(),
        }
    }
}

} // verus!

verus! {

/// The dotted path of a member expression (`process.env`).
pub open spec fn member_path(node: JsonValue) -> Seq<char> {
    join_seq(spec_member_parts(node, no_lookup()), "."@)
}

/// `JSON.stringify(process.env)`, or `JSON.stringify(x)` of a name the
/// tracer follows: `traced_data` is the name the tracer resolved the call
/// to, `traced` the names it follows.
pub open spec fn spec_validate_json_stringify(
    node: JsonValue,
    traced_data: Option<Seq<char>>,
    traced: LookupFn,
) -> bool {
    traced_data == Some("JSON.stringify"@) && match node.spec_get_array("arguments"@) {
        Some(args) => args.len() > 0 && ((spec_is_type(args[0], "MemberExpression"@)
            && member_path(args[0]) == "process.env"@) || (spec_is_type(args[0], "Identifier"@)
            && traced(
            match spec_identifier_name(args[0]) {
                Some(n) => n,
                None => Seq::empty(),
            },
        ) is Some)),
        None => false,
    }
}

/// A bare `process.env`.
pub open spec fn spec_validate_process_env(node: JsonValue) -> bool {
    spec_is_type(node, "MemberExpression"@) && member_path(node) == "process.env"@
}

impl IsSerializeEnv {
    pub fn new() -> (r: IsSerializeEnv)
        ensures
            r.entry_point == EntryPoint::Default,
    {
        IsSerializeEnv { entry_point: EntryPoint::Default }
    }

    /// `JSON.stringify(process.env)`, or of a name the tracer follows.
    pub fn validate_json_stringify(
        node: &JsonValue,
        traced_data: Option<&str>,
        traced: &IdentifierLookup,
    ) -> (r: bool)
        ensures
            r == spec_validate_json_stringify(
                *node,
                match traced_data {
                    Some(t) => Some(t@),
                    None => None,
                },
                traced@,
            ),
    {
        let is_stringify = match traced_data {
            Some(t) => str_eq(t, "JSON.stringify"),
            None => false,
        };
        if !is_stringify {
            return false;
        }
        let args = match node.get_array("arguments") {
            Some(a) => a,
            None => {
                return false;
            },
        };
        if args.len() == 0 {
            return false;
        }
        let first_arg = &args[0];
        if is_member_expression(first_arg) {
            let path = join(&get_member_expression_identifier(first_arg, &IdentifierLookup::noop()), ".");
            if str_eq(path.as_str(), "process.env") {
                return true;
            }
        }
        if is_identifier(first_arg) {
            let name = match identifier_name(first_arg) {
                Some(n) => n,
                None => "",
            };
            proof {
                reveal_strlit("");
                assert(""@ =~= Seq::<char>::empty());
            }
            if traced.lookup(name).is_some() {
                return true;
            }
        }
        false
    }

    /// A bare `process.env`: the process-env handler will run.
    pub fn validate_process_env(&mut self, node: &JsonValue) -> (r: bool)
        ensures
            r == spec_validate_process_env(*node),
            final(self).entry_point == if r {
                EntryPoint::ProcessEnv
            } else {
                old(self).entry_point
            },
    {
        if !is_member_expression(node) {
            return false;
        }
        let path = join(&get_member_expression_identifier(node, &IdentifierLookup::noop()), ".");
        if !str_eq(path.as_str(), "process.env") {
            return false;
        }
        self.entry_point = EntryPoint::ProcessEnv;
        true
    }

    /// The validators in turn: `JSON.stringify` first, then `process.env`.
    pub fn validate_node(
        &mut self,
        node: &JsonValue,
        traced_data: Option<&str>,
        traced: &IdentifierLookup,
    ) -> (r: bool)
        ensures
            r == (spec_validate_json_stringify(
                *node,
                match traced_data {
                    Some(t) => Some(t@),
                    None => None,
                },
                traced@,
            ) || spec_validate_process_env(*node)),
            final(self).entry_point == if !spec_validate_json_stringify(
                *node,
                match traced_data {
                    Some(t) => Some(t@),
                    None => None,
                },
                traced@,
            ) && spec_validate_process_env(*node) {
                EntryPoint::ProcessEnv
            } else {
                EntryPoint::Default
            },
    {
        self.entry_point = EntryPoint::Default;
        if Self::validate_json_stringify(node, traced_data, traced) {
            return true;
        }
        self.validate_process_env(node)
    }

    /// What the handler of the matched validator reports, and its answer:
    /// `JSON.stringify(process.env)` always; a bare `process.env` only in
    /// aggressive mode.
    pub fn handler_outcome(&self, sensitivity: Sensitivity) -> (r: (Option<String>, ProbeReturn))
        ensures
            self.entry_point == EntryPoint::Default ==> opt_view(r.0) == Some(
                "JSON.stringify(process.env)"@,
            ) && r.1 == ProbeReturn::Skip,
            self.entry_point == EntryPoint::ProcessEnv && sensitivity != Sensitivity::Aggressive
                ==> r.0 is None && r.1 == ProbeReturn::Continue,
            self.entry_point == EntryPoint::ProcessEnv && sensitivity == Sensitivity::Aggressive
                ==> opt_view(r.0) == Some("process.env"@) && r.1 == ProbeReturn::Skip,
    {
        match self.entry_point {
            EntryPoint::Default => (Some(to_string("JSON.stringify(process.env)")), ProbeReturn::Skip),
            EntryPoint::ProcessEnv => {
                if sensitivity != Sensitivity::Aggressive {
                    (None, ProbeReturn::Continue)
                } else {
                    (Some(to_string("process.env")), ProbeReturn::Skip)
                }
            },
        }
    }
}

} // verus!

verus! {

impl IsSerializeEnv {
    /// The names the probe asks the variable tracer to follow.
    pub fn initialize(&self) -> (r: Vec<TraceRequest>)
        ensures
            view_traces(r@) == spec_traces(seq!["process.env"@, "JSON.stringify"@], false, None),
    {
        let mut r = traces(&["process.env", "JSON.stringify"], false, None);
        proof {
            assert(view_traces(r@) =~= spec_traces(seq!["process.env"@, "JSON.stringify"@], false, None));
        }
        r
    }
}

} // verus!
