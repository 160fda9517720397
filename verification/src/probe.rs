//! The probe runner's decisions: which probe runs next on a node, and what
//! a probe's answer does to the rest of the walk.

use vstd::prelude::*;

use indexmap::IndexSet;

use crate::estree::functions::{
    get_call_expression_identifier, spec_call_identifier, GetCallExpressionIdentifierOptions,
};
use crate::estree::types::{is_call_expression, spec_is_type, IdentifierLookup};
use crate::json::JsonValue;
use crate::collections::{name_set_contains, name_set_insert, name_set_items, name_set_new, set_insert};
use crate::text::{clone_strings, str_eq, strings_contain, view_strings};

verus! {

/// What a probe's `main` returned.
#[derive(Debug, Clone, Copy, PartialEq, Eq, Structural)]
pub enum ProbeReturn {
    /// The probe matched and ran to completion.
    Matched,
    /// Keep evaluating other probes.
    Continue,
    /// Skip this node's children entirely.
    Skip,
    /// Stop evaluating probes (or the probe's break group).
    Break,
}

/// The action the walker must take after probing a node.
#[derive(Debug, Clone, Copy, PartialEq, Eq, Structural)]
pub enum WalkAction {
    /// Walk on into the node's children.
    Proceed,
    /// Skip the node's children.
    Skip,
}

/// How eagerly the probes warn.
#[derive(Debug, Clone, Copy, PartialEq, Eq, Structural)]
pub enum Sensitivity {
    /// Warn only on what is known to be dangerous.
    Conservative,
    /// Warn on everything that could be.
    Aggressive,
}

/// What the runner needs to know of a probe.
pub struct ProbeInfo {
    pub name: String,
    /// ESTree node types the probe handles; `None` = every node.
    pub node_types: Option<Vec<String>>,
    pub break_on_match: bool,
    pub break_group: Option<String>,
}

/// A probe as the runner sees it: its name, the node types it handles
/// (`None` = every node), whether it breaks on a match, and its break group.
pub type ProbeView = (Seq<char>, Option<Seq<Seq<char>>>, bool, Option<Seq<char>>);

impl View for ProbeInfo {
    type V = ProbeView;

    open spec fn view(&self) -> ProbeView {
        (
            self.name@,
            match self.node_types {
                Some(v) => Some(view_strings(v@)),
                None => None,
            },
            self.break_on_match,
            opt_view(self.break_group),
        )
    }
}

impl ProbeInfo {
    /// A copy of the probe's description.
    pub fn clone_info(&self) -> (r: ProbeInfo)
        ensures
            r@ == self@,
    {
        ProbeInfo {
            name: self.name.clone(),
            node_types: match &self.node_types {
                Some(types) => Some(clone_strings(types)),
                None => None,
            },
            break_on_match: self.break_on_match,
            break_group: match &self.break_group {
                Some(g) => Some(g.clone()),
                None => None,
            },
        }
    }
}

/// A copy of each probe's description.
pub fn clone_infos(infos: &Vec<ProbeInfo>) -> (r: Vec<ProbeInfo>)
    ensures
        view_infos(r@) == view_infos(infos@),
{
    let mut r: Vec<ProbeInfo> = Vec::new();
    let mut i: usize = 0;
    while i < infos.len()
        invariant
            0 <= i <= infos@.len(),
            view_infos(r@) == view_infos(infos@).take(i as int),
        decreases infos.len() - i,
    {
        let ghost before = r@;
        let info = infos[i].clone_info();
        r.push(info);
        proof {
            assert(view_infos(r@) =~= view_infos(before).push(infos@[i as int]@));
            assert(view_infos(infos@).take(i + 1) =~= view_infos(infos@).take(i as int).push(
                infos@[i as int]@,
            ));
        }
        i = i + 1;
    }
    proof {
        assert(view_infos(infos@).take(infos@.len() as int) =~= view_infos(infos@));
    }
    r
}

/// Each probe as the runner sees it.
pub open spec fn view_infos(v: Seq<ProbeInfo>) -> Seq<ProbeView> {
    v.map_values(|i: ProbeInfo| i@)
}

pub open spec fn opt_view(o: Option<String>) -> Option<Seq<char>> {
    match o {
        Some(s) => Some(s@),
        None => None,
    }
}

/// The probe handles nodes of this type: it lists no types, an empty list,
/// or a list that holds the type.
pub open spec fn handles_type(info: ProbeInfo, node_type: Seq<char>) -> bool {
    match info.node_types {
        None => true,
        Some(types) => types@.len() == 0 || view_strings(types@).contains(node_type),
    }
}

/// The probe runs on the node: it handles the type and its break group (if
/// any) has not broken yet.
pub open spec fn spec_applies(info: ProbeInfo, node_type: Seq<char>, broken: Seq<Seq<char>>) -> bool {
    &&& handles_type(info, node_type)
    &&& match opt_view(info.break_group) {
        Some(g) => !broken.contains(g),
        None => true,
    }
}

/// The state of one walk of the probes over a node.
pub struct ProbeWalk {
    pub node_type: String,
    /// Index of the next probe to consider.
    pub next: usize,
    /// Break groups that have broken on this node.
    pub break_groups: IndexSet<String>,
    /// Set once the walk is over.
    pub finished: Option<WalkAction>,
}

/// What recording a probe's answer leads to.
#[derive(Debug, Clone, Copy, PartialEq, Eq, Structural)]
pub enum ProbeFlow {
    /// Go on with the next probe.
    Next,
    /// The walk is over, with this action for the walker.
    Stop(WalkAction),
}

/// Whether the probe runs on a node of this type, given the groups that
/// have broken.
pub fn applies(info: &ProbeInfo, node_type: &str, break_groups: &IndexSet<String>) -> (r: bool)
    ensures
        r == spec_applies(*info, node_type@, name_set_items(*break_groups)),
{
    let handles = match &info.node_types {
        None => true,
        Some(types) => types.len() == 0 || strings_contain(types, node_type),
    };
    handles && match &info.break_group {
        Some(g) => !name_set_contains(break_groups, g.as_str()),
        None => true,
    }
}

impl ProbeWalk {
    /// A walk over a node of this type, before any probe ran.
    pub fn start(node_type: &str) -> (r: ProbeWalk)
        ensures
            r.node_type@ == node_type@,
            r.next == 0,
            name_set_items(r.break_groups) == Seq::<Seq<char>>::empty(),
            r.finished is None,
    {
        ProbeWalk {
            node_type: crate::text::to_string(node_type),
            next: 0,
            break_groups: name_set_new(),
            finished: None,
        }
    }

    /// The index of the next probe that runs, skipping the ones that do not
    /// apply; `None` ends the walk with `WalkAction::Proceed`.
    pub fn next_probe(&mut self, probes: &Vec<ProbeInfo>) -> (r: Option<usize>)
        requires
            old(self).finished is None,
        ensures
            final(self).node_type == old(self).node_type,
            final(self).break_groups == old(self).break_groups,
            old(self).next <= final(self).next,
            forall|j: int|
                old(self).next <= j < final(self).next ==> !spec_applies(
                    #[trigger] probes@[j],
                    old(self).node_type@,
                    name_set_items(old(self).break_groups),
                ),
            match r {
                Some(i) => {
                    &&& i == final(self).next
                    &&& i < probes@.len()
                    &&& spec_applies(
                        probes@[i as int],
                        old(self).node_type@,
                        name_set_items(old(self).break_groups),
                    )
                    &&& final(self).finished is None
                },
                None => {
                    &&& final(self).next >= probes@.len()
                    &&& final(self).finished == Some(WalkAction::Proceed)
                },
            },
    {
        while self.next < probes.len()
            invariant
                self.node_type == old(self).node_type,
                self.break_groups == old(self).break_groups,
                self.finished is None,
                old(self).next <= self.next,
                forall|j: int|
                    old(self).next <= j < self.next ==> !spec_applies(
                        #[trigger] probes@[j],
                        old(self).node_type@,
                        name_set_items(old(self).break_groups),
                    ),
            decreases probes.len() - self.next,
        {
            if applies(&probes[self.next], self.node_type.as_str(), &self.break_groups) {
                return Some(self.next);
            }
            self.next = self.next + 1;
        }
        self.finished = Some(WalkAction::Proceed);
        None
    }

    /// Record the answer of the probe that `next_probe` returned.
    pub fn record(&mut self, probes: &Vec<ProbeInfo>, signal: ProbeReturn) -> (r: ProbeFlow)
        requires
            old(self).finished is None,
            old(self).next < probes@.len(),
        ensures
            final(self).node_type == old(self).node_type,
            ({
                let info = probes@[old(self).next as int];
                let group = opt_view(info.break_group);
                let breaks = signal == ProbeReturn::Break || (signal == ProbeReturn::Matched
                    && info.break_on_match);
                if signal == ProbeReturn::Skip {
                    &&& r == ProbeFlow::Stop(WalkAction::Skip)
                    &&& final(self).finished == Some(WalkAction::Skip)
                    &&& final(self).break_groups == old(self).break_groups
                } else if breaks && group is None {
                    &&& r == ProbeFlow::Stop(WalkAction::Proceed)
                    &&& final(self).finished == Some(WalkAction::Proceed)
                    &&& final(self).break_groups == old(self).break_groups
                } else {
                    &&& r == ProbeFlow::Next
                    &&& final(self).finished is None
                    &&& final(self).next == old(self).next + 1
                    &&& name_set_items(final(self).break_groups) == if breaks {
                        set_insert(name_set_items(old(self).break_groups), group.unwrap())
                    } else {
                        name_set_items(old(self).break_groups)
                    }
                }
            }),
    {
        let count = probes.len();
        let info = &probes[self.next];
        let breaks = match signal {
            ProbeReturn::Break => true,
            ProbeReturn::Matched => info.break_on_match,
            _ => false,
        };
        if signal == ProbeReturn::Skip {
            self.finished = Some(WalkAction::Skip);
            return ProbeFlow::Stop(WalkAction::Skip);
        }
        if breaks {
            match &info.break_group {
                None => {
                    self.finished = Some(WalkAction::Proceed);
                    return ProbeFlow::Stop(WalkAction::Proceed);
                },
                Some(g) => {
                    let _ = name_set_insert(&mut self.break_groups, g.clone());
                },
            }
        }
        self.next = self.next + 1;
        ProbeFlow::Next
    }
}

/// Per-node context handed to probes: the name that the node, when it is a
/// `CallExpression`, resolves to through the tracer's identifier lookup.
pub struct ProbeCtx {
    pub traced_identifier: Option<String>,
}

/// The name a node resolves to for the probes: only a `CallExpression` has
/// one, read with callees resolved and `lookup` applied.
pub open spec fn spec_traced_identifier(
    node: JsonValue,
    lookup: spec_fn(Seq<char>) -> Option<Seq<char>>,
) -> Option<Seq<char>> {
    if spec_is_type(node, "CallExpression"@) {
        spec_call_identifier(node, lookup, true)
    } else {
        None
    }
}

impl ProbeCtx {
    /// The context of `node`, where `lookup` holds the names that the
    /// tracer resolves.
    pub fn for_node(node: &JsonValue, lookup: IdentifierLookup) -> (r: ProbeCtx)
        ensures
            opt_view(r.traced_identifier) == spec_traced_identifier(*node, lookup@),
    {
        if !is_call_expression(node) {
            return ProbeCtx { traced_identifier: None };
        }
        let options = GetCallExpressionIdentifierOptions {
            external_identifier_lookup: lookup,
            resolve_call_expression: true,
        };
        ProbeCtx { traced_identifier: get_call_expression_identifier(node, &options) }
    }
}

/// How the variable tracer follows a traced name.
pub struct TraceOptions {
    /// Follow `a = b = traced` chains of assignments.
    pub follow_consecutive_assignment: bool,
    /// Follow the names bound to what a traced call returns.
    pub follow_return_value_assignement: bool,
    /// Only where this module is imported.
    pub module_name: Option<String>,
}

/// A name that a probe asks the variable tracer to follow.
pub struct TraceRequest {
    pub identifier: String,
    pub options: TraceOptions,
}

/// A trace request as plain values: the name, whether consecutive
/// assignments and returned values are followed, and the module.
pub type TraceView = (Seq<char>, bool, bool, Option<Seq<char>>);

impl View for TraceRequest {
    type V = TraceView;

    open spec fn view(&self) -> TraceView {
        (
            self.identifier@,
            self.options.follow_consecutive_assignment,
            self.options.follow_return_value_assignement,
            opt_view(self.options.module_name),
        )
    }
}

/// Each trace request as plain values.
pub open spec fn view_traces(v: Seq<TraceRequest>) -> Seq<TraceView> {
    v.map_values(|t: TraceRequest| t@)
}

/// The part of a name before its first `.` (the whole name without one).
pub open spec fn module_of(name: Seq<char>) -> Seq<char> {
    match crate::text::first_dot(name) {
        Some(d) => name.take(d),
        None => name,
    }
}

/// Requests to trace each of `names`, following consecutive assignments,
/// returned values where `follow_return` is set, within `module`.
pub open spec fn spec_traces(names: Seq<Seq<char>>, follow_return: bool, module: Option<Seq<char>>) -> Seq<
    TraceView,
> {
    names.map_values(|n: Seq<char>| (n, true, follow_return, module))
}

/// Requests to trace each of `names`, following consecutive assignments,
/// each within the module its name starts with.
pub open spec fn spec_traces_in_own_module(names: Seq<Seq<char>>) -> Seq<TraceView> {
    names.map_values(|n: Seq<char>| (n, true, false, Some(module_of(n))))
}

/// Requests to trace each of `names`, following consecutive assignments,
/// returned values where `follow_return` is set, within `module`.
pub fn traces(names: &[&str], follow_return: bool, module: Option<&str>) -> (r: Vec<TraceRequest>)
    ensures
        view_traces(r@) == spec_traces(
            names@.map_values(|n: &str| n@),
            follow_return,
            match module {
                Some(m) => Some(m@),
                None => None,
            },
        ),
{
    let ghost all = names@.map_values(|n: &str| n@);
    let ghost m = match module {
        Some(m) => Some(m@),
        None => None::<Seq<char>>,
    };
    let mut out: Vec<TraceRequest> = Vec::new();
    let mut i: usize = 0;
    while i < names.len()
        invariant
            all == names@.map_values(|n: &str| n@),
            m == match module {
                Some(m) => Some(m@),
                None => None::<Seq<char>>,
            },
            0 <= i <= names@.len(),
            view_traces(out@) == spec_traces(all.take(i as int), follow_return, m),
        decreases names.len() - i,
    {
        let module_name = match module {
            Some(m) => Some(crate::text::to_string(m)),
            None => None,
        };
        let request = TraceRequest {
            identifier: crate::text::to_string(names[i]),
            options: TraceOptions {
                follow_consecutive_assignment: true,
                follow_return_value_assignement: follow_return,
                module_name,
            },
        };
        let ghost before = out@;
        out.push(request);
        proof {
            assert(view_traces(out@) =~= view_traces(before).push((all[i as int], true, follow_return, m)));
            assert(spec_traces(all.take(i + 1), follow_return, m) =~= spec_traces(all.take(i as int), follow_return, m).push(
                (all[i as int], true, follow_return, m),
            ));
        }
        i = i + 1;
    }
    proof {
        assert(all.take(names@.len() as int) =~= all);
    }
    out
}

/// Requests to trace each of `names`, following consecutive assignments,
/// each within the module its name starts with.
pub fn traces_in_own_module(names: &[&str]) -> (r: Vec<TraceRequest>)
    ensures
        view_traces(r@) == spec_traces_in_own_module(names@.map_values(|n: &str| n@)),
{
    let ghost all = names@.map_values(|n: &str| n@);
    let mut out: Vec<TraceRequest> = Vec::new();
    let mut i: usize = 0;
    while i < names.len()
        invariant
            all == names@.map_values(|n: &str| n@),
            0 <= i <= names@.len(),
            view_traces(out@) == spec_traces_in_own_module(all.take(i as int)),
        decreases names.len() - i,
    {
        let module_name = match crate::text::split_at_first_dot(names[i]) {
            Some(parts) => parts.0,
            None => crate::text::to_string(names[i]),
        };
        let request = TraceRequest {
            identifier: crate::text::to_string(names[i]),
            options: TraceOptions {
                follow_consecutive_assignment: true,
                follow_return_value_assignement: false,
                module_name: Some(module_name),
            },
        };
        let ghost before = out@;
        out.push(request);
        proof {
            let t = (all[i as int], true, false, Some(module_of(all[i as int])));
            assert(view_traces(out@) =~= view_traces(before).push(t));
            assert(spec_traces_in_own_module(all.take(i + 1)) =~= spec_traces_in_own_module(
                all.take(i as int),
            ).push(t));
        }
        i = i + 1;
    }
    proof {
        assert(all.take(names@.len() as int) =~= all);
    }
    out
}

} // verus!
