//! The `isFetch` probe.

use vstd::prelude::*;

use crate::probe::{spec_traces, spec_traces_in_own_module, traces, traces_in_own_module, view_traces, TraceRequest, opt_view, ProbeInfo};
use crate::probes::strings;
use crate::text::{to_string, view_strings};
use crate::probe::ProbeReturn;
use crate::text::str_eq;

verus! {

/// The `isFetch` probe.
pub struct IsFetch;

impl IsFetch {
    pub fn name(&self) -> (r: String)
        ensures
            r@ == "isFetch"@,
    {
        to_string("isFetch")
    }

    /// The ESTree node types the probe handles.
    pub fn node_types(&self) -> (r: Option<Vec<String>>)
        ensures
            match r {
                Some(v) => Some(view_strings(v@)),
                None => None::<Seq<Seq<char>>>,
            } == Some(seq!["CallExpression"@]),
    {
        Some(strings(&["CallExpression"]))
    }

    pub fn break_on_match(&self) -> (r: bool)
        ensures
            r == false,
    {
        false
    }

    pub fn break_group(&self) -> (r: Option<String>)
        ensures
            opt_view(r) == None::<Seq<char>>,
    {
        None
    }

    /// What the runner needs to know of the probe.
    pub fn info(&self) -> (r: ProbeInfo)
        ensures
            r.name@ == "isFetch"@,
            match r.node_types {
                Some(v) => Some(view_strings(v@)),
                None => None::<Seq<Seq<char>>>,
            } == Some(seq!["CallExpression"@]),
            r.break_on_match == false,
            opt_view(r.break_group) == None::<Seq<char>>,
    {
        ProbeInfo {
            name: self.name(),
            node_types: self.node_types(),
            break_on_match: self.break_on_match(),
            break_group: self.break_group(),
        }
    }
}

} // verus!

verus! {

impl IsFetch {
    /// The names the probe asks the variable tracer to follow.
    pub fn initialize(&self) -> (r: Vec<TraceRequest>)
        ensures
            view_traces(r@) == spec_traces(seq!["fetch"@], false, None),
    {
        let mut r = traces(&["fetch"], false, None);
        proof {
            assert(view_traces(r@) =~= spec_traces(seq!["fetch"@], false, None));
        }
        r
    }
}

} // verus!

verus! {

impl IsFetch {
    /// A call that the tracer resolved to `fetch`.
    pub fn validate_node(&self, traced_data: Option<&str>) -> (r: bool)
        ensures
            r == (opt_str_view(traced_data) == Some("fetch"@)),
    {
        match traced_data {
            Some(t) => str_eq(t, "fetch"),
            None => false,
        }
    }

    /// The flag a matched call sets on the file, and the probe's answer.
    pub fn main(&self) -> (r: (String, ProbeReturn))
        ensures
            r.0@ == "fetch"@,
            r.1 == ProbeReturn::Matched,
    {
        (to_string("fetch"), ProbeReturn::Matched)
    }
}

/// The view of an optional text.
pub open spec fn opt_str_view(o: Option<&str>) -> Option<Seq<char>> {
    match o {
        Some(s) => Some(s@),
        None => None,
    }
}

} // verus!
