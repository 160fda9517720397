//! Running probes over a tree: each node, in document order, is shown to the
//! probes that handle its type; a probe's answer can skip the node's
//! children or stop the probes after it.

use vstd::prelude::*;

use crate::estree::location::SourceLocation;
use crate::estree::types::{is_node, node_type, spec_node_type, IdentifierLookup};
use crate::json::JsonValue;
use crate::probe::{ProbeCtx, ProbeFlow, ProbeInfo, ProbeReturn, ProbeView, ProbeWalk, WalkAction};
use crate::probes::is_prototype_pollution::{pollution_outcome, validate_node, IsPrototypePollution};
use crate::probes::is_unsafe_callee::{
    callee_first_argument_value, is_unsafe_callee, spec_unsafe_callee, unsafe_callee_warns, IsUnsafeCallee,
};
use crate::probe::{opt_view, spec_traced_identifier};
use crate::collections::{name_set_items, set_insert};
use crate::text::{to_string, view_strings};

verus! {

/// A finding of the analysis: its kind, its value and where it was made.
pub struct Warning {
    pub kind: String,
    pub value: Option<String>,
    pub location: Option<SourceLocation>,
}

/// The warning of a source that does not parse: `parsing-error`, with the
/// parser's message.
pub fn parsing_error(message: String) -> (r: Warning)
    ensures
        warning_view(r) == ("parsing-error"@, Some(message@), None::<SourceLocation>),
{
    Warning { kind: to_string("parsing-error"), value: Some(message), location: None }
}

/// A warning as plain values: its kind, its value and its location.
pub type WarningView = (Seq<char>, Option<Seq<char>>, Option<SourceLocation>);

pub open spec fn warning_view(w: Warning) -> WarningView {
    (w.kind@, opt_view(w.value), w.location)
}

/// Each warning as plain values.
pub open spec fn view_warnings(ws: Seq<Warning>) -> Seq<WarningView> {
    ws.map_values(|w: Warning| warning_view(w))
}

proof fn lemma_view_warnings_push(ws: Seq<Warning>, w: Warning)
    ensures
        view_warnings(ws.push(w)) == view_warnings(ws).push(warning_view(w)),
{
    assert(view_warnings(ws.push(w)) =~= view_warnings(ws).push(warning_view(w)));
}

/// A probe with behaviour: its description, and what it does on a node (its
/// validators, then, when one matched, its main handler), which depends on
/// the node and the name the node's call resolves to.
pub trait Probe {
    /// The probe's description.
    spec fn spec_info(&self) -> ProbeView;

    /// The probe's answer on a node, and the warnings it reports there.
    spec fn spec_run(&self, node: JsonValue, traced: Option<Seq<char>>) -> (ProbeReturn, Seq<WarningView>);

    fn info(&self) -> (r: ProbeInfo)
        ensures
            r@ == self.spec_info(),
    ;

    /// Runs the probe on a node: its answer, and its warnings added after
    /// those already found.
    fn run(&self, node: &JsonValue, ctx: &ProbeCtx, warnings: &mut Vec<Warning>) -> (r: ProbeReturn)
        ensures
            r == self.spec_run(*node, opt_view(ctx.traced_identifier)).0,
            view_warnings(final(warnings)@) == view_warnings(old(warnings)@) + self.spec_run(
                *node,
                opt_view(ctx.traced_identifier),
            ).1,
    ;
}

/// A described probe handles nodes of this type: it lists no types, an
/// empty list, or a list that holds the type.
pub open spec fn view_handles(v: ProbeView, node_type: Seq<char>) -> bool {
    match v.1 {
        None => true,
        Some(types) => types.len() == 0 || types.contains(node_type),
    }
}

/// A described probe runs on a node of this type while these break groups
/// have broken.
pub open spec fn view_applies(v: ProbeView, node_type: Seq<char>, broken: Seq<Seq<char>>) -> bool {
    &&& view_handles(v, node_type)
    &&& match v.3 {
        Some(g) => !broken.contains(g),
        None => true,
    }
}

proof fn lemma_applies_view(info: ProbeInfo, node_type: Seq<char>, broken: Seq<Seq<char>>)
    ensures
        crate::probe::spec_applies(info, node_type, broken) == view_applies(info@, node_type, broken),
{
    match info.node_types {
        Some(types) => {
            assert(view_strings(types@).len() == types@.len());
        },
        None => {},
    }
}

/// Running the probes from the `i`-th on a node whose call resolves to
/// `traced`, while the groups `broken` have broken: the walker's action,
/// and the warnings reported, in order. Each probe that applies runs; one
/// that skips ends the walk with `Skip`; one that breaks (or matches, when
/// it breaks on a match) ends it when it has no group, else breaks its
/// group.
pub open spec fn spec_probes_on(
    probes: Seq<Box<dyn Probe>>,
    node: JsonValue,
    traced: Option<Seq<char>>,
    node_type: Seq<char>,
    i: int,
    broken: Seq<Seq<char>>,
) -> (WalkAction, Seq<WarningView>)
    decreases probes.len() - i,
{
    if i < 0 || i >= probes.len() {
        (WalkAction::Proceed, Seq::empty())
    } else if !view_applies(probes[i].spec_info(), node_type, broken) {
        spec_probes_on(probes, node, traced, node_type, i + 1, broken)
    } else {
        let v = probes[i].spec_info();
        let (signal, w) = probes[i].spec_run(node, traced);
        let breaks = signal == ProbeReturn::Break || (signal == ProbeReturn::Matched && v.2);
        if signal == ProbeReturn::Skip {
            (WalkAction::Skip, w)
        } else if breaks && v.3 is None {
            (WalkAction::Proceed, w)
        } else {
            let rest = spec_probes_on(
                probes,
                node,
                traced,
                node_type,
                i + 1,
                if breaks {
                    set_insert(broken, v.3.unwrap())
                } else {
                    broken
                },
            );
            (rest.0, w + rest.1)
        }
    }
}

/// Probes that do not apply change nothing.
proof fn lemma_skip_inapplicable(
    probes: Seq<Box<dyn Probe>>,
    node: JsonValue,
    traced: Option<Seq<char>>,
    node_type: Seq<char>,
    i: int,
    k: int,
    broken: Seq<Seq<char>>,
)
    requires
        0 <= i <= k,
        forall|j: int| i <= j < k && j < probes.len() ==> !view_applies(#[trigger] probes[j].spec_info(), node_type, broken),
    ensures
        spec_probes_on(probes, node, traced, node_type, i, broken) == spec_probes_on(
            probes,
            node,
            traced,
            node_type,
            k,
            broken,
        ) || k > probes.len() && spec_probes_on(probes, node, traced, node_type, i, broken) == (
            WalkAction::Proceed,
            Seq::<WarningView>::empty(),
        ),
    decreases k - i,
{
    if i < k && i < probes.len() {
        lemma_skip_inapplicable(probes, node, traced, node_type, i + 1, k, broken);
    }
}

/// The probes' walk on a node ends with `Skip` only where one of them that
/// ran asked to skip; the warnings then end with that probe's, none of a
/// probe after it.
pub proof fn lemma_skip_only_when_asked(
    probes: Seq<Box<dyn Probe>>,
    node: JsonValue,
    traced: Option<Seq<char>>,
    node_type: Seq<char>,
    i: int,
    broken: Seq<Seq<char>>,
)
    ensures
        spec_probes_on(probes, node, traced, node_type, i, broken).0 == WalkAction::Skip ==> exists|j: int|
            #![trigger probes[j].spec_run(node, traced)]
            i <= j < probes.len() && probes[j].spec_run(node, traced).0 == ProbeReturn::Skip
                && spec_probes_on(probes, node, traced, node_type, i, broken).1.len()
                >= probes[j].spec_run(node, traced).1.len()
                && spec_probes_on(probes, node, traced, node_type, i, broken).1.subrange(
                spec_probes_on(probes, node, traced, node_type, i, broken).1.len()
                    - probes[j].spec_run(node, traced).1.len(),
                spec_probes_on(probes, node, traced, node_type, i, broken).1.len() as int,
            ) == probes[j].spec_run(node, traced).1,
    decreases probes.len() - i,
{
    if 0 <= i < probes.len() {
        let v = probes[i].spec_info();
        let (signal, w) = probes[i].spec_run(node, traced);
        let breaks = signal == ProbeReturn::Break || (signal == ProbeReturn::Matched && v.2);
        if !view_applies(v, node_type, broken) {
            lemma_skip_only_when_asked(probes, node, traced, node_type, i + 1, broken);
        } else if signal == ProbeReturn::Skip {
            assert(w.subrange(0, w.len() as int) =~= w);
        } else if !(breaks && v.3 is None) {
            let nb = if breaks {
                set_insert(broken, v.3.unwrap())
            } else {
                broken
            };
            lemma_skip_only_when_asked(probes, node, traced, node_type, i + 1, nb);
            let rest = spec_probes_on(probes, node, traced, node_type, i + 1, nb);
            if rest.0 == WalkAction::Skip {
                let j = choose|j: int|
                    #![trigger probes[j].spec_run(node, traced)]
                    i + 1 <= j < probes.len() && probes[j].spec_run(node, traced).0 == ProbeReturn::Skip
                        && rest.1.len() >= probes[j].spec_run(node, traced).1.len() && rest.1.subrange(
                        rest.1.len() - probes[j].spec_run(node, traced).1.len(),
                        rest.1.len() as int,
                    ) == probes[j].spec_run(node, traced).1;
                let wj = probes[j].spec_run(node, traced).1;
                let all = w + rest.1;
                assert(all.subrange(all.len() - wj.len(), all.len() as int) =~= rest.1.subrange(
                    rest.1.len() - wj.len(),
                    rest.1.len() as int,
                ));
            }
        }
    }
}

/// The warnings the probes report walking a tree in document order: on
/// each node (each object with a `type`), then, unless the node's action
/// is `Skip`, on its fields' values or its items, in order.
pub open spec fn spec_walk(
    probes: Seq<Box<dyn Probe>>,
    node: JsonValue,
    lookup: spec_fn(Seq<char>) -> Option<Seq<char>>,
) -> Seq<WarningView>
    decreases node, 0int,
{
    let here = if spec_node_type(node) is Some {
        spec_probes_on(
            probes,
            node,
            spec_traced_identifier(node, lookup),
            spec_node_type(node).unwrap(),
            0,
            Seq::empty(),
        )
    } else {
        (WalkAction::Proceed, Seq::empty())
    };
    if here.0 == WalkAction::Skip {
        here.1
    } else {
        match node {
            JsonValue::Array(items) => {
                proof {
                    assert(decreases_to!(node => items));
                    assert(decreases_to!(items => items@));
                }
                here.1 + spec_walk_items(probes, items@, lookup)
            },
            JsonValue::Object(fields) => {
                proof {
                    assert(decreases_to!(node => fields));
                    assert(decreases_to!(fields => fields@));
                }
                here.1 + spec_walk_fields(probes, fields@, lookup)
            },
            _ => here.1,
        }
    }
}

/// The walks of the items, in order.
pub open spec fn spec_walk_items(
    probes: Seq<Box<dyn Probe>>,
    items: Seq<JsonValue>,
    lookup: spec_fn(Seq<char>) -> Option<Seq<char>>,
) -> Seq<WarningView>
    decreases items, 1int,
{
    if items.len() == 0 {
        Seq::empty()
    } else {
        proof {
            assert(decreases_to!(items => items[items.len() - 1]));
        }
        spec_walk_items(probes, items.drop_last(), lookup) + spec_walk(probes, items.last(), lookup)
    }
}

/// The walks of the fields' values, in order.
pub open spec fn spec_walk_fields(
    probes: Seq<Box<dyn Probe>>,
    fields: Seq<(String, JsonValue)>,
    lookup: spec_fn(Seq<char>) -> Option<Seq<char>>,
) -> Seq<WarningView>
    decreases fields, 1int,
{
    if fields.len() == 0 {
        Seq::empty()
    } else {
        proof {
            assert(decreases_to!(fields => fields[fields.len() - 1]));
            assert(decreases_to!(fields[fields.len() - 1] => fields[fields.len() - 1].1));
        }
        spec_walk_fields(probes, fields.drop_last(), lookup) + spec_walk(probes, fields.last().1, lookup)
    }
}

/// The prototype-pollution probe: a `"__proto__"` literal is reported as
/// `__proto__`; a member path ending in `__proto__` is reported as it is,
/// and the node's children are skipped.
impl Probe for IsPrototypePollution {
    open spec fn spec_info(&self) -> ProbeView {
        ("isPrototypePollution"@, Some(seq!["Literal"@, "MemberExpression"@]), false, None)
    }

    open spec fn spec_run(&self, node: JsonValue, traced: Option<Seq<char>>) -> (ProbeReturn, Seq<WarningView>) {
        match crate::probes::is_prototype_pollution::spec_pollution(node) {
            None => (ProbeReturn::Continue, Seq::empty()),
            Some(data) => (
                if data == "literal"@ {
                    ProbeReturn::Matched
                } else {
                    ProbeReturn::Skip
                },
                seq![
                    (
                        "prototype-pollution"@,
                        Some(
                            if data == "literal"@ {
                                "__proto__"@
                            } else {
                                data
                            },
                        ),
                        crate::estree::location::spec_node_location(node),
                    ),
                ],
            ),
        }
    }

    fn info(&self) -> (r: ProbeInfo) {
        let r = IsPrototypePollution::info(self);
        assert(r@ =~= self.spec_info());
        r
    }

    fn run(&self, node: &JsonValue, ctx: &ProbeCtx, warnings: &mut Vec<Warning>) -> (r: ProbeReturn) {
        match validate_node(node) {
            None => {
                assert(view_warnings(warnings@) + Seq::<WarningView>::empty() =~= view_warnings(warnings@));
                ProbeReturn::Continue
            },
            Some(data) => {
                let (value, signal) = pollution_outcome(data.as_str());
                let ghost before = warnings@;
                let w = Warning {
                    kind: to_string("prototype-pollution"),
                    value: Some(value),
                    location: SourceLocation::from_node(node),
                };
                warnings.push(w);
                proof {
                    lemma_view_warnings_push(before, w);
                    assert(view_warnings(before).push(warning_view(w)) =~= view_warnings(before) + seq![
                        warning_view(w),
                    ]);
                }
                signal
            },
        }
    }
}

/// The unsafe-callee probe: `eval(...)` and `Function(...)()` are reported
/// as `unsafe-stmt` with the callee's name, except `Function("return
/// this")()`; the node's children are skipped either way.
impl Probe for IsUnsafeCallee {
    open spec fn spec_info(&self) -> ProbeView {
        ("isUnsafeCallee"@, Some(seq!["CallExpression"@]), false, None)
    }

    open spec fn spec_run(&self, node: JsonValue, traced: Option<Seq<char>>) -> (ProbeReturn, Seq<WarningView>) {
        match spec_unsafe_callee(node, traced) {
            None => (ProbeReturn::Continue, Seq::empty()),
            Some(callee) => (
                ProbeReturn::Skip,
                if callee == "Function"@ && callee_first_argument_value(node) == Some("return this"@) {
                    Seq::empty()
                } else {
                    seq![("unsafe-stmt"@, Some(callee), crate::estree::location::spec_node_location(node))]
                },
            ),
        }
    }

    fn info(&self) -> (r: ProbeInfo) {
        let r = IsUnsafeCallee::info(self);
        assert(r@ =~= self.spec_info());
        r
    }

    fn run(&self, node: &JsonValue, ctx: &ProbeCtx, warnings: &mut Vec<Warning>) -> (r: ProbeReturn) {
        let traced = match &ctx.traced_identifier {
            Some(t) => Some(t.as_str()),
            None => None,
        };
        assert(match traced {
            Some(t) => Some(t@),
            None => None,
        } == opt_view(ctx.traced_identifier));
        match is_unsafe_callee(node, traced) {
            None => {
                assert(view_warnings(warnings@) + Seq::<WarningView>::empty() =~= view_warnings(warnings@));
                ProbeReturn::Continue
            },
            Some(callee) => {
                if unsafe_callee_warns(node, callee.as_str()) {
                    let ghost before = warnings@;
                    let w = Warning {
                        kind: to_string("unsafe-stmt"),
                        value: Some(callee),
                        location: SourceLocation::from_node(node),
                    };
                    warnings.push(w);
                    proof {
                        lemma_view_warnings_push(before, w);
                        assert(view_warnings(before).push(warning_view(w)) =~= view_warnings(before) + seq![
                            warning_view(w),
                        ]);
                    }
                } else {
                    assert(view_warnings(warnings@) + Seq::<WarningView>::empty() =~= view_warnings(warnings@));
                }
                ProbeReturn::Skip
            },
        }
    }
}

proof fn lemma_item_decreases(v: JsonValue, i: int)
    ensures
        v is Array && 0 <= i < v->Array_0@.len() ==> decreases_to!(v => v->Array_0@[i]),
{
    if let JsonValue::Array(items) = v {
        if 0 <= i < items@.len() {
            assert(decreases_to!(v => items));
            assert(decreases_to!(items => items@[i]));
        }
    }
}

proof fn lemma_field_decreases(v: JsonValue, i: int)
    ensures
        v is Object && 0 <= i < v->Object_0@.len() ==> decreases_to!(v => v->Object_0@[i].1),
{
    if let JsonValue::Object(fields) = v {
        if 0 <= i < fields@.len() {
            assert(decreases_to!(v => fields));
            assert(decreases_to!(fields => fields@[i]));
            assert(decreases_to!(fields@[i] => fields@[i].1));
        }
    }
}

/// A copy of a lookup.
fn copy_lookup(lookup: &IdentifierLookup) -> (r: IdentifierLookup)
    ensures
        r@ == lookup@,
{
    let mut entries: Vec<(String, String)> = Vec::new();
    let mut i: usize = 0;
    while i < lookup.entries.len()
        invariant
            0 <= i <= lookup.entries@.len(),
            entries@ == lookup.entries@.take(i as int),
        decreases lookup.entries.len() - i,
    {
        entries.push((lookup.entries[i].0.clone(), lookup.entries[i].1.clone()));
        assert(entries@ =~= lookup.entries@.take(i + 1));
        i = i + 1;
    }
    assert(entries@ =~= lookup.entries@);
    let r = IdentifierLookup { entries };
    assert(r@ =~= lookup@);
    r
}

/// Runs the probes on a node (one that has a `type`): those that handle
/// its type, in order, until one skips the children or breaks; `lookup`
/// resolves the names of traced calls. Gives the walker's action; the
/// warnings they report follow those already found.
pub fn run_probes(
    probes: &Vec<Box<dyn Probe>>,
    node: &JsonValue,
    lookup: &IdentifierLookup,
    warnings: &mut Vec<Warning>,
) -> (r: WalkAction)
    requires
        spec_node_type(*node) is Some,
    ensures
        ({
            let (action, w) = spec_probes_on(
                probes@,
                *node,
                spec_traced_identifier(*node, lookup@),
                spec_node_type(*node).unwrap(),
                0,
                Seq::empty(),
            );
            r == action && view_warnings(final(warnings)@) == view_warnings(old(warnings)@) + w
        }),
{
    let ghost first = view_warnings(warnings@);
    let ty = match node_type(node) {
        Some(t) => t,
        None => "",
    };
    let ctx = ProbeCtx::for_node(node, copy_lookup(lookup));
    let ghost traced = opt_view(ctx.traced_identifier);
    assert(ty@ == spec_node_type(*node).unwrap());
    let ghost total = spec_probes_on(probes@, *node, traced, ty@, 0, Seq::empty());
    let mut infos: Vec<ProbeInfo> = Vec::new();
    let mut k: usize = 0;
    while k < probes.len()
        invariant
            0 <= k <= probes@.len(),
            infos@.len() == k,
            forall|j: int| 0 <= j < k ==> (#[trigger] infos@[j])@ == probes@[j].spec_info(),
        decreases probes.len() - k,
    {
        let info = probes[k].info();
        infos.push(info);
        k = k + 1;
    }
    let mut walk = ProbeWalk::start(ty);
    let ghost mut done: Seq<WarningView> = Seq::empty();
    proof {
        assert(first + done =~= first);
    }
    loop
        invariant
            infos@.len() == probes@.len(),
            forall|j: int| 0 <= j < probes@.len() ==> (#[trigger] infos@[j])@ == probes@[j].spec_info(),
            walk.finished is None,
            walk.node_type@ == ty@,
            walk.next <= infos@.len(),
            first == view_warnings(old(warnings)@),
            traced == spec_traced_identifier(*node, lookup@),
            ty@ == spec_node_type(*node).unwrap(),
            traced == opt_view(ctx.traced_identifier),
            view_warnings(warnings@) == first + done,
            total == spec_probes_on(probes@, *node, traced, ty@, 0, Seq::empty()),
            ({
                let rest = spec_probes_on(
                    probes@,
                    *node,
                    traced,
                    ty@,
                    walk.next as int,
                    name_set_items(walk.break_groups),
                );
                total == (rest.0, done + rest.1)
            }),
        decreases infos.len() - walk.next,
    {
        let ghost from = walk.next as int;
        let ghost broken = name_set_items(walk.break_groups);
        match walk.next_probe(&infos) {
            None => {
                proof {
                    assert forall|j: int| from <= j < walk.next && j < probes@.len() implies !view_applies(
                        #[trigger] probes@[j].spec_info(),
                        ty@,
                        broken,
                    ) by {
                        lemma_applies_view(infos@[j], ty@, broken);
                    }
                    lemma_skip_inapplicable(probes@, *node, traced, ty@, from, walk.next as int, broken);
                    assert(done + Seq::<WarningView>::empty() =~= done);
                }
                return WalkAction::Proceed;
            },
            Some(i) => {
                proof {
                    assert forall|j: int| from <= j < i && j < probes@.len() implies !view_applies(
                        #[trigger] probes@[j].spec_info(),
                        ty@,
                        broken,
                    ) by {
                        lemma_applies_view(infos@[j], ty@, broken);
                    }
                    lemma_skip_inapplicable(probes@, *node, traced, ty@, from, i as int, broken);
                    lemma_applies_view(infos@[i as int], ty@, broken);
                }
                let ghost before = view_warnings(warnings@);
                let probe = &probes[i];
                assert(*probe == probes@[i as int]);
                let signal = probe.run(node, &ctx, warnings);
                let ghost w = probes@[i as int].spec_run(*node, traced).1;
                proof {
                    assert(view_warnings(warnings@) =~= first + (done + w));
                    done = done + w;
                    let v = probes@[i as int].spec_info();
                    assert(v == infos@[i as int]@);
                }
                match walk.record(&infos, signal) {
                    ProbeFlow::Next => {
                        proof {
                            let v = probes@[i as int].spec_info();
                            let rest = spec_probes_on(
                                probes@,
                                *node,
                                traced,
                                ty@,
                                walk.next as int,
                                name_set_items(walk.break_groups),
                            );
                            assert(done + rest.1 =~= (done.subrange(0, done.len() - w.len()) + (w + rest.1)))
                                by {
                                assert(done =~= done.subrange(0, done.len() - w.len()) + w);
                            }
                        }
                    },
                    ProbeFlow::Stop(action) => {
                        return action;
                    },
                }
            },
        }
    }
}

/// Walks a tree in document order, running the probes on each node (each
/// object with a `type`) and going into its fields' values and its items
/// unless the node's action is `Skip`: the warnings reported follow those
/// already found, as `spec_walk` gives them.
pub fn walk_ast(
    node: &JsonValue,
    probes: &Vec<Box<dyn Probe>>,
    lookup: &IdentifierLookup,
    warnings: &mut Vec<Warning>,
)
    ensures
        view_warnings(final(warnings)@) == view_warnings(old(warnings)@) + spec_walk(probes@, *node, lookup@),
    decreases node,
{
    let ghost first = view_warnings(warnings@);
    let action = if is_node(node) {
        run_probes(probes, node, lookup, warnings)
    } else {
        assert(first + Seq::<WarningView>::empty() =~= first);
        WalkAction::Proceed
    };
    let ghost here = view_warnings(warnings@);
    if action == WalkAction::Skip {
        return;
    }
    match node {
        JsonValue::Array(items) => {
            let mut i: usize = 0;
            assert(items@.take(0) =~= Seq::<JsonValue>::empty());
            assert(here + Seq::<WarningView>::empty() =~= here);
            while i < items.len()
                invariant
                    0 <= i <= items@.len(),
                    *node == JsonValue::Array(*items),
                    view_warnings(warnings@) == here + spec_walk_items(probes@, items@.take(i as int), lookup@),
                decreases items.len() - i,
            {
                proof {
                    lemma_item_decreases(*node, i as int);
                    assert(items@.take(i + 1).drop_last() =~= items@.take(i as int));
                    assert(items@.take(i + 1).last() == items@[i as int]);
                }
                let ghost b = view_warnings(warnings@);
                walk_ast(&items[i], probes, lookup, warnings);
                proof {
                    assert(view_warnings(warnings@) =~= here + spec_walk_items(
                        probes@,
                        items@.take(i + 1),
                        lookup@,
                    ));
                }
                i = i + 1;
            }
            assert(items@.take(i as int) =~= items@);
        },
        JsonValue::Object(fields) => {
            let mut i: usize = 0;
            assert(fields@.take(0) =~= Seq::<(String, JsonValue)>::empty());
            assert(here + Seq::<WarningView>::empty() =~= here);
            while i < fields.len()
                invariant
                    0 <= i <= fields@.len(),
                    *node == JsonValue::Object(*fields),
                    view_warnings(warnings@) == here + spec_walk_fields(probes@, fields@.take(i as int), lookup@),
                decreases fields.len() - i,
            {
                proof {
                    lemma_field_decreases(*node, i as int);
                    assert(fields@.take(i + 1).drop_last() =~= fields@.take(i as int));
                    assert(fields@.take(i + 1).last() == fields@[i as int]);
                }
                walk_ast(&fields[i].1, probes, lookup, warnings);
                proof {
                    assert(view_warnings(warnings@) =~= here + spec_walk_fields(
                        probes@,
                        fields@.take(i + 1),
                        lookup@,
                    ));
                }
                i = i + 1;
            }
            assert(fields@.take(i as int) =~= fields@);
        },
        _ => {
            assert(here + Seq::<WarningView>::empty() =~= here);
        },
    }
}

} // verus!
