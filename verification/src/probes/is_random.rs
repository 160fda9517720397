//! The `isRandom` probe.

use vstd::prelude::*;

use crate::probe::{spec_traces, spec_traces_in_own_module, traces, traces_in_own_module, view_traces, TraceRequest, opt_view, ProbeInfo};
use crate::probes::strings;
use crate::text::{to_string, view_strings};
use crate::estree::location::{spec_node_location, SourceLocation};
use crate::json::JsonValue;
use crate::probe::ProbeReturn;
use crate::probes::is_fetch::opt_str_view;
use crate::text::str_eq;

verus! {

/// The `isRandom` probe.
pub struct IsRandom;

impl IsRandom {
    pub fn name(&self) -> (r: String)
        ensures
            r@ == "isRandom"@,
    {
        to_string("isRandom")
    }

    /// The ESTree node types the probe handles.
    pub fn node_types(&self) -> (r: Option<Vec<String>>)
        ensures
            match r {
                Some(v) => Some(view_strings(v@)),
                None => None::<Seq<Seq<char>>>,
            } == Some(seq!["CallExpression"@]),
    {
        Some(strings(&["CallExpression"]))
    }

    pub fn break_on_match(&self) -> (r: bool)
        ensures
            r == false,
    {
        false
    }

    pub fn break_group(&self) -> (r: Option<String>)
        ensures
            opt_view(r) == None::<Seq<char>>,
    {
        None
    }

    /// What the runner needs to know of the probe.
    pub fn info(&self) -> (r: ProbeInfo)
        ensures
            r.name@ == "isRandom"@,
            match r.node_types {
                Some(v) => Some(view_strings(v@)),
                None => None::<Seq<Seq<char>>>,
            } == Some(seq!["CallExpression"@]),
            r.break_on_match == false,
            opt_view(r.break_group) == None::<Seq<char>>,
    {
        ProbeInfo {
            name: self.name(),
            node_types: self.node_types(),
            break_on_match: self.break_on_match(),
            break_group: self.break_group(),
        }
    }
}

} // verus!

verus! {

impl IsRandom {
    /// The names the probe asks the variable tracer to follow.
    pub fn initialize(&self) -> (r: Vec<TraceRequest>)
        ensures
            view_traces(r@) == spec_traces(seq!["Math.random"@], false, None),
    {
        let mut r = traces(&["Math.random"], false, None);
        proof {
            assert(view_traces(r@) =~= spec_traces(seq!["Math.random"@], false, None));
        }
        r
    }
}

} // verus!

verus! {

impl IsRandom {
    /// A call of the name the tracer follows as `Math.random`.
    pub fn validate_node(&self, traced_name: Option<&str>) -> (r: bool)
        ensures
            r == (opt_str_view(traced_name) == Some("Math.random"@)),
    {
        match traced_name {
            Some(t) => str_eq(t, "Math.random"),
            None => false,
        }
    }

    /// The location of the `insecure-random` warning for a matched call,
    /// and the probe's answer.
    pub fn main(&self, node: &JsonValue) -> (r: (Option<SourceLocation>, ProbeReturn))
        ensures
            r.0 == spec_node_location(*node),
            r.1 == ProbeReturn::Matched,
    {
        (SourceLocation::from_node(node), ProbeReturn::Matched)
    }
}

} // verus!
