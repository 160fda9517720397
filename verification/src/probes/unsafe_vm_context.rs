//! The `unsafe-vm-context` probe.

use vstd::prelude::*;

use crate::estree::types::{is_call_expression, spec_is_type};
use crate::json::JsonValue;
use crate::probe::{spec_traces, spec_traces_in_own_module, traces, traces_in_own_module, view_traces, TraceRequest, opt_view, ProbeInfo};
use crate::probes::strings;
use crate::text::{str_eq, strings_contain, to_string, view_strings};

verus! {

/// The `unsafe-vm-context` probe.
pub struct UnsafeVmContext {
    /// The `<script>.runInContext` names traced so far, each once.
    pub run_in_context_traced_functions: Vec<String>,
    pub entry_point: VmEntryPoint,
}

/// Which call the validator matched.
#[derive(Debug, Clone, Copy, PartialEq, Eq, Structural)]
pub enum VmEntryPoint {
    /// `vm.runInNewContext(...)`.
    Default,
    /// `script.runInContext(...)` on a `vm.Script`.
    Script,
}

impl UnsafeVmContext {
    pub fn name(&self) -> (r: String)
        ensures
            r@ == "unsafe-vm-context"@,
    {
        to_string("unsafe-vm-context")
    }

    /// The ESTree node types the probe handles.
    pub fn node_types(&self) -> (r: Option<Vec<String>>)
        ensures
            match r {
                Some(v) => Some(view_strings(v@)),
                None => None::<Seq<Seq<char>>>,
            } == Some(seq!["CallExpression"@]),
    {
        Some(strings(&["CallExpression"]))
    }

    pub fn break_on_match(&self) -> (r: bool)
        ensures
            r == false,
    {
        false
    }

    pub fn break_group(&self) -> (r: Option<String>)
        ensures
            opt_view(r) == None::<Seq<char>>,
    {
        None
    }

    /// What the runner needs to know of the probe.
    pub fn info(&self) -> (r: ProbeInfo)
        ensures
            r.name@ == "unsafe-vm-context"@,
            match r.node_types {
                Some(v) => Some(view_strings(v@)),
                None => None::<Seq<Seq<char>>>,
            } == Some(seq!["CallExpression"@]),
            r.break_on_match == false,
            opt_view(r.break_group) == None::<Seq<char>>,
    {
        ProbeInfo {
            name: self.name(),
            node_types: self.node_types(),
            break_on_match: self.break_on_match(),
            break_group: self.break_group(),
        }
    }
}

} // verus!

verus! {

impl UnsafeVmContext {
    pub fn new() -> (r: UnsafeVmContext)
        ensures
            r.run_in_context_traced_functions@.len() == 0,
            r.entry_point == VmEntryPoint::Default,
    {
        UnsafeVmContext { run_in_context_traced_functions: Vec::new(), entry_point: VmEntryPoint::Default }
    }

    /// A `vm.Script` was bound to `id`: `id.runInContext` is traced from
    /// now on. Gives the name to trace.
    pub fn on_return_value(&mut self, name: &str, id: &str) -> (r: Option<String>)
        ensures
            final(self).entry_point == old(self).entry_point,
            name@ != "vm.Script"@ ==> r is None && final(self).run_in_context_traced_functions
                == old(self).run_in_context_traced_functions,
            name@ == "vm.Script"@ ==> {
                let traced = id@ + ".runInContext"@;
                &&& opt_view(r) == Some(traced)
                &&& view_strings(final(self).run_in_context_traced_functions@) == if view_strings(
                    old(self).run_in_context_traced_functions@,
                ).contains(traced) {
                    view_strings(old(self).run_in_context_traced_functions@)
                } else {
                    view_strings(old(self).run_in_context_traced_functions@).push(traced)
                }
            },
    {
        if !str_eq(name, "vm.Script") {
            return None;
        }
        let mut traced_fn = to_string(id);
        traced_fn.append(".runInContext");
        if !strings_contain(&self.run_in_context_traced_functions, traced_fn.as_str()) {
            let ghost before = self.run_in_context_traced_functions@;
            self.run_in_context_traced_functions.push(traced_fn.clone());
            proof {
                crate::text::lemma_view_strings_push(before, traced_fn);
            }
        }
        Some(traced_fn)
    }

    /// The validator: a call to `vm.runInNewContext`, or to the
    /// `runInContext` of a traced script, in a file that imports `vm`;
    /// `traced_data` is the name the tracer resolved the call to.
    pub fn validate_node(&mut self, node: &JsonValue, imports_vm: bool, traced_data: Option<&str>) -> (r:
        bool)
        ensures
            !spec_is_type(*node, "CallExpression"@) || !imports_vm ==> !r && *final(self)
                == *old(self),
            spec_is_type(*node, "CallExpression"@) && imports_vm ==> {
                let in_set = match traced_data {
                    Some(t) => view_strings(old(self).run_in_context_traced_functions@).contains(t@),
                    None => false,
                };
                &&& final(self).run_in_context_traced_functions == old(
                    self,
                ).run_in_context_traced_functions
                &&& final(self).entry_point == if in_set {
                    VmEntryPoint::Script
                } else {
                    VmEntryPoint::Default
                }
                &&& r == (in_set || match traced_data {
                    Some(t) => t@ == "vm.runInNewContext"@,
                    None => false,
                })
            },
    {
        if !is_call_expression(node) || !imports_vm {
            return false;
        }
        let in_set = match traced_data {
            Some(t) => strings_contain(&self.run_in_context_traced_functions, t),
            None => false,
        };
        if in_set {
            self.entry_point = VmEntryPoint::Script;
            return true;
        }
        self.entry_point = VmEntryPoint::Default;
        match traced_data {
            Some(t) => str_eq(t, "vm.runInNewContext"),
            None => false,
        }
    }

    /// What the probe reports for the call the validator matched.
    pub fn warning_value(&self) -> (r: String)
        ensures
            self.entry_point == VmEntryPoint::Script ==> r@ == "(new vm.Script(code, options)).runInContext"@,
            self.entry_point == VmEntryPoint::Default ==> r@ == "vm.runInNewContext"@,
    {
        match self.entry_point {
            VmEntryPoint::Script => to_string("(new vm.Script(code, options)).runInContext"),
            VmEntryPoint::Default => to_string("vm.runInNewContext"),
        }
    }
}

} // verus!

verus! {

impl UnsafeVmContext {
    /// The names the probe asks the variable tracer to follow.
    pub fn initialize(&self) -> (r: Vec<TraceRequest>)
        ensures
            view_traces(r@) == spec_traces(seq!["vm.runInNewContext"@], false, Some("vm"@)) + spec_traces(seq!["vm.Script"@], true, Some("vm"@)),
    {
        let mut r = traces(&["vm.runInNewContext"], false, Some("vm"));
        proof {
            assert(view_traces(r@) =~= spec_traces(seq!["vm.runInNewContext"@], false, Some("vm"@)));
        }
        let mut more = traces(&["vm.Script"], true, Some("vm"));
        proof {
            assert(view_traces(more@) =~= spec_traces(seq!["vm.Script"@], true, Some("vm"@)));
        }
        let ghost before = r@;
        r.append(&mut more);
        proof {
            assert(view_traces(r@) =~= spec_traces(seq!["vm.runInNewContext"@], false, Some("vm"@)) + spec_traces(seq!["vm.Script"@], true, Some("vm"@)));
        }
        r
    }
}

} // verus!
