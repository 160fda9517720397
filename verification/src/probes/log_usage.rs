//! The `log-usage` probe.

use vstd::prelude::*;

use crate::probe::{opt_view, ProbeInfo};
use crate::text::{to_string, view_strings};
use crate::json::JsonValue;
use crate::probe::ProbeReturn;

verus! {

/// The `log-usage` probe.
pub struct LogUsage;

impl LogUsage {
    pub fn name(&self) -> (r: String)
        ensures
            r@ == "log-usage"@,
    {
        to_string("log-usage")
    }

    /// The ESTree node types the probe handles.
    pub fn node_types(&self) -> (r: Option<Vec<String>>)
        ensures
            match r {
                Some(v) => Some(view_strings(v@)),
                None => None::<Seq<Seq<char>>>,
            } == None::<Seq<Seq<char>>>,
    {
        None
    }

    pub fn break_on_match(&self) -> (r: bool)
        ensures
            r == false,
    {
        false
    }

    pub fn break_group(&self) -> (r: Option<String>)
        ensures
            opt_view(r) == None::<Seq<char>>,
    {
        None
    }

    /// What the runner needs to know of the probe.
    pub fn info(&self) -> (r: ProbeInfo)
        ensures
            r.name@ == "log-usage"@,
            match r.node_types {
                Some(v) => Some(view_strings(v@)),
                None => None::<Seq<Seq<char>>>,
            } == None::<Seq<Seq<char>>>,
            r.break_on_match == false,
            opt_view(r.break_group) == None::<Seq<char>>,
    {
        ProbeInfo {
            name: self.name(),
            node_types: self.node_types(),
            break_on_match: self.break_on_match(),
            break_group: self.break_group(),
        }
    }
}

} // verus!

verus! {

impl LogUsage {
    /// The probe validates no node.
    pub fn validate_node(&self, node: &JsonValue) -> (r: bool)
        ensures
            !r,
    {
        false
    }

    /// Running the probe changes nothing and lets the other probes run.
    pub fn main(&self, node: &JsonValue) -> (r: ProbeReturn)
        ensures
            r == ProbeReturn::Continue,
    {
        ProbeReturn::Continue
    }
}

} // verus!
