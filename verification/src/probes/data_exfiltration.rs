//! The `dataExfiltration` probe.

use vstd::prelude::*;

use crate::probe::{spec_traces, spec_traces_in_own_module, traces, traces_in_own_module, view_traces, TraceRequest, opt_view, ProbeInfo};
use crate::probes::strings;
use crate::text::{to_string, view_strings};
use indexmap::IndexMap;
use crate::collections::{
    add_location, key_index, location_entries, location_map_contains_key, location_map_get_index,
    location_map_len, location_map_new, location_map_push,
};
use crate::estree::functions::{call_expression_identifier, spec_call_identifier};
use crate::estree::location::{
    spec_array_location, spec_node_location, to_array_location, SourceArrayLocation, SourceLocation,
};
use crate::estree::types::{is_call_expression, is_string_literal, no_lookup, spec_is_string_literal, spec_is_type, IdentifierLookup, LookupFn};
use crate::json::JsonValue;
use crate::patterns::{pattern_matches, regex_matches, regex_valid};
use crate::probe::{ProbeReturn, Sensitivity};
use crate::probes::is_fetch::opt_str_view;
use crate::probes::is_regex_object::str_or_empty;
use crate::text::{join_seq, str_eq, strings_contain};

verus! {

/// Which handler runs on a validated node.
#[derive(Debug, Clone, Copy, PartialEq, Eq, Structural)]
pub enum ExfiltrationEntryPoint {
    /// A call of a sensitive method.
    Default,
    /// A literal naming a sensitive path.
    Literal,
}

/// The `dataExfiltration` probe: what it has seen, by name, with where.
pub struct DataExfiltration {
    pub context: IndexMap<String, Vec<SourceArrayLocation>>,
    pub entry_point: ExfiltrationEntryPoint,
}

impl DataExfiltration {
    pub fn name(&self) -> (r: String)
        ensures
            r@ == "dataExfiltration"@,
    {
        to_string("dataExfiltration")
    }

    /// The ESTree node types the probe handles.
    pub fn node_types(&self) -> (r: Option<Vec<String>>)
        ensures
            match r {
                Some(v) => Some(view_strings(v@)),
                None => None::<Seq<Seq<char>>>,
            } == Some(seq!["CallExpression"@, "Literal"@]),
    {
        Some(strings(&["CallExpression", "Literal"]))
    }

    pub fn break_on_match(&self) -> (r: bool)
        ensures
            r == false,
    {
        false
    }

    pub fn break_group(&self) -> (r: Option<String>)
        ensures
            opt_view(r) == None::<Seq<char>>,
    {
        None
    }

    /// What the runner needs to know of the probe.
    pub fn info(&self) -> (r: ProbeInfo)
        ensures
            r.name@ == "dataExfiltration"@,
            match r.node_types {
                Some(v) => Some(view_strings(v@)),
                None => None::<Seq<Seq<char>>>,
            } == Some(seq!["CallExpression"@, "Literal"@]),
            r.break_on_match == false,
            opt_view(r.break_group) == None::<Seq<char>>,
    {
        ProbeInfo {
            name: self.name(),
            node_types: self.node_types(),
            break_on_match: self.break_on_match(),
            break_group: self.break_group(),
        }
    }
}

} // verus!

verus! {

impl DataExfiltration {
    /// The names the probe asks the variable tracer to follow.
    pub fn initialize(&self) -> (r: Vec<TraceRequest>)
        ensures
            view_traces(r@) == spec_traces(seq!["JSON.stringify"@], false, None) + spec_traces(seq!["os.userInfo"@, "os.networkInterfaces"@, "os.cpus"@], false, Some("os"@)) + spec_traces(seq!["dns.getServers"@], false, Some("dns"@)),
    {
        let mut r = traces(&["JSON.stringify"], false, None);
        proof {
            assert(view_traces(r@) =~= spec_traces(seq!["JSON.stringify"@], false, None));
        }
        let mut more = traces(&["os.userInfo", "os.networkInterfaces", "os.cpus"], false, Some("os"));
        proof {
            assert(view_traces(more@) =~= spec_traces(seq!["os.userInfo"@, "os.networkInterfaces"@, "os.cpus"@], false, Some("os"@)));
        }
        let ghost before = r@;
        r.append(&mut more);
        proof {
            assert(view_traces(r@) =~= spec_traces(seq!["JSON.stringify"@], false, None) + spec_traces(seq!["os.userInfo"@, "os.networkInterfaces"@, "os.cpus"@], false, Some("os"@)));
        }
        let mut more = traces(&["dns.getServers"], false, Some("dns"));
        proof {
            assert(view_traces(more@) =~= spec_traces(seq!["dns.getServers"@], false, Some("dns"@)));
        }
        let ghost before = r@;
        r.append(&mut more);
        proof {
            assert(view_traces(r@) =~= spec_traces(seq!["JSON.stringify"@], false, None) + spec_traces(seq!["os.userInfo"@, "os.networkInterfaces"@, "os.cpus"@], false, Some("os"@)) + spec_traces(seq!["dns.getServers"@], false, Some("dns"@)));
        }
        r
    }
}

} // verus!

verus! {

/// The regex of a sensitive path under the home directory.
pub open spec fn sensitive_path_pattern() -> Seq<char> {
    "~/\\.(ssh|aws|npmrc|gitconfig|bashrc)(/[^\\s\"'`]+)?"@
}

/// The module of a sensitive method, for the methods that are sensitive.
pub open spec fn sensitive_method_module(member: Seq<char>) -> Option<Seq<char>> {
    if member == "os.userInfo"@ || member == "os.networkInterfaces"@ || member == "os.cpus"@ {
        Some("os"@)
    } else if member == "dns.getServers"@ {
        Some("dns"@)
    } else {
        None
    }
}

/// A module whose import is itself a sign of exfiltration.
pub open spec fn is_sensitive_module(name: Seq<char>) -> bool {
    name == "os"@ || name == "dns"@
}

/// A call that the tracer resolved to `JSON.stringify`, with arguments, in
/// conservative mode.
pub open spec fn spec_validate_json_stringify(
    node: JsonValue,
    sensitivity: Sensitivity,
    traced_data: Option<Seq<char>>,
) -> bool {
    &&& sensitivity != Sensitivity::Aggressive
    &&& traced_data == Some("JSON.stringify"@)
    &&& node.spec_get_array("arguments"@) matches Some(args) && args.len() > 0
}

/// A string literal that names a sensitive path.
pub open spec fn spec_validate_literal(node: JsonValue) -> bool {
    &&& spec_is_string_literal(node)
    &&& node.spec_get_str("value"@) matches Some(v) && regex_valid(sensitive_path_pattern())
        && regex_matches(sensitive_path_pattern(), v)
}

/// What a call of a sensitive method adds to the context: the method and
/// the location of the call handed to the call, when that call is of a
/// sensitive method whose module is imported. `traced` gives, for a name
/// the tracer follows, what it stands for.
pub open spec fn spec_sensitive_call(
    node: JsonValue,
    traced: LookupFn,
    imported_modules: Seq<Seq<char>>,
) -> Option<(Seq<char>, Option<SourceLocation>)> {
    match node.spec_get_array("arguments"@) {
        Some(args) => if args.len() > 0 && spec_is_type(args[0], "CallExpression"@) {
            match spec_call_identifier(args[0], no_lookup(), true) {
                Some(id) => match traced(id) {
                    Some(member) => match sensitive_method_module(member) {
                        Some(module) => if imported_modules.contains(module) {
                            Some((member, spec_node_location(args[0])))
                        } else {
                            None
                        },
                        None => None,
                    },
                    None => None,
                },
                None => None,
            }
        } else {
            None
        },
        None => None,
    }
}

/// The names seen, in order.
pub open spec fn context_keys(entries: Seq<(Seq<char>, Seq<SourceArrayLocation>)>) -> Seq<Seq<char>> {
    entries.map_values(|e: (Seq<char>, Seq<SourceArrayLocation>)| e.0)
}

/// All locations seen, name after name.
pub open spec fn context_locations(entries: Seq<(Seq<char>, Seq<SourceArrayLocation>)>) -> Seq<
    SourceArrayLocation,
>
    decreases entries.len(),
{
    if entries.len() == 0 {
        Seq::empty()
    } else {
        context_locations(entries.drop_last()) + entries.last().1
    }
}

/// No name is recorded twice.
pub open spec fn context_unique(entries: Seq<(Seq<char>, Seq<SourceArrayLocation>)>) -> bool {
    forall|i: int, j: int| 0 <= i < j < entries.len() ==> #[trigger] entries[i].0 != #[trigger] entries[j].0
}

/// Recording a sighting keeps the names distinct.
pub proof fn lemma_add_location_unique(
    entries: Seq<(Seq<char>, Seq<SourceArrayLocation>)>,
    key: Seq<char>,
    location: SourceArrayLocation,
)
    requires
        context_unique(entries),
    ensures
        context_unique(add_location(entries, key, location)),
{
    crate::collections::lemma_key_index(entries, key);
    let e2 = add_location(entries, key, location);
    assert forall|i: int, j: int| 0 <= i < j < e2.len() implies #[trigger] e2[i].0 != #[trigger] e2[j].0 by {
        if j < entries.len() {
            assert(entries[i].0 != entries[j].0);
        }
    }
}

impl DataExfiltration {
    /// What the probe has seen.
    pub open spec fn spec_context(&self) -> Seq<(Seq<char>, Seq<SourceArrayLocation>)> {
        location_entries(self.context)
    }

    /// A probe that has seen nothing.
    pub fn new() -> (r: DataExfiltration)
        ensures
            context_unique(r.spec_context()),
            r.spec_context() == Seq::<(Seq<char>, Seq<SourceArrayLocation>)>::empty(),
            r.entry_point == ExfiltrationEntryPoint::Default,
    {
        DataExfiltration { context: location_map_new(), entry_point: ExfiltrationEntryPoint::Default }
    }

    /// `JSON.stringify(...)` with arguments, in conservative mode.
    pub fn validate_json_stringify(node: &JsonValue, sensitivity: Sensitivity, traced_data: Option<&str>) -> (r:
        bool)
        ensures
            r == spec_validate_json_stringify(*node, sensitivity, opt_str_view(traced_data)),
    {
        if sensitivity == Sensitivity::Aggressive {
            return false;
        }
        let is_stringify = match traced_data {
            Some(t) => str_eq(t, "JSON.stringify"),
            None => false,
        };
        if !is_stringify {
            return false;
        }
        match node.get_array("arguments") {
            Some(args) => args.len() > 0,
            None => false,
        }
    }

    /// A string literal naming a sensitive path: the literal handler will
    /// run.
    pub fn validate_literal(&mut self, node: &JsonValue) -> (r: bool)
        ensures
            r == spec_validate_literal(*node),
            final(self).context == old(self).context,
            final(self).entry_point == if r {
                ExfiltrationEntryPoint::Literal
            } else {
                old(self).entry_point
            },
    {
        if !is_string_literal(node) {
            return false;
        }
        let value = match node.get_str("value") {
            Some(v) => v,
            None => {
                return false;
            },
        };
        if !pattern_matches("~/\\.(ssh|aws|npmrc|gitconfig|bashrc)(/[^\\s\"'`]+)?", value) {
            return false;
        }
        self.entry_point = ExfiltrationEntryPoint::Literal;
        true
    }

    /// The validators in turn: `JSON.stringify` first, then the literal.
    pub fn validate_node(&mut self, node: &JsonValue, sensitivity: Sensitivity, traced_data: Option<&str>) -> (r:
        bool)
        ensures
            r == (spec_validate_json_stringify(*node, sensitivity, opt_str_view(traced_data))
                || spec_validate_literal(*node)),
            final(self).context == old(self).context,
            final(self).entry_point == if !spec_validate_json_stringify(
                *node,
                sensitivity,
                opt_str_view(traced_data),
            ) && spec_validate_literal(*node) {
                ExfiltrationEntryPoint::Literal
            } else {
                ExfiltrationEntryPoint::Default
            },
    {
        self.entry_point = ExfiltrationEntryPoint::Default;
        if Self::validate_json_stringify(node, sensitivity, traced_data) {
            return true;
        }
        self.validate_literal(node)
    }

    /// Records a name seen at a location.
    pub fn add_in_context(&mut self, value: String, location: Option<SourceLocation>)
        ensures
            final(self).spec_context() == add_location(
                old(self).spec_context(),
                value@,
                spec_array_location(location),
            ),
            final(self).entry_point == old(self).entry_point,
    {
        location_map_push(&mut self.context, value, to_array_location(location));
    }

    /// A literal naming a sensitive path: its value is recorded where the
    /// literal stands.
    pub fn sensitive_literal_handler(&mut self, node: &JsonValue) -> (r: ProbeReturn)
        ensures
            r == ProbeReturn::Matched,
            final(self).spec_context() == add_location(
                old(self).spec_context(),
                str_or_empty(node.spec_get_str("value"@)),
                spec_array_location(spec_node_location(*node)),
            ),
            final(self).entry_point == old(self).entry_point,
    {
        let value = match node.get_str("value") {
            Some(v) => to_string(v),
            None => String::new(),
        };
        self.add_in_context(value, SourceLocation::from_node(node));
        ProbeReturn::Matched
    }

    /// A call whose first argument calls a sensitive method of an imported
    /// module: the method is recorded where that call stands.
    pub fn sensitive_methods_handler(
        &mut self,
        node: &JsonValue,
        traced: &IdentifierLookup,
        imported_modules: &Vec<String>,
    ) -> (r: ProbeReturn)
        ensures
            r == ProbeReturn::Matched,
            final(self).spec_context() == match spec_sensitive_call(*node, traced@, view_strings(imported_modules@)) {
                Some((member, location)) => add_location(
                    old(self).spec_context(),
                    member,
                    spec_array_location(location),
                ),
                None => old(self).spec_context(),
            },
            final(self).entry_point == old(self).entry_point,
    {
        let first_arg = match node.get_array("arguments") {
            Some(args) => {
                if args.len() == 0 {
                    return ProbeReturn::Matched;
                }
                &args[0]
            },
            None => {
                return ProbeReturn::Matched;
            },
        };
        if !is_call_expression(first_arg) {
            return ProbeReturn::Matched;
        }
        let id = match call_expression_identifier(first_arg) {
            Some(id) => id,
            None => {
                return ProbeReturn::Matched;
            },
        };
        let member = match traced.lookup(id.as_str()) {
            Some(m) => m,
            None => {
                return ProbeReturn::Matched;
            },
        };
        let module = if str_eq(member.as_str(), "os.userInfo") || str_eq(member.as_str(), "os.networkInterfaces")
            || str_eq(member.as_str(), "os.cpus") {
            "os"
        } else if str_eq(member.as_str(), "dns.getServers") {
            "dns"
        } else {
            return ProbeReturn::Matched;
        };
        if strings_contain(imported_modules, module) {
            self.add_in_context(member, SourceLocation::from_node(first_arg));
        }
        ProbeReturn::Matched
    }

    /// The handler of the validator that matched.
    pub fn main(&mut self, node: &JsonValue, traced: &IdentifierLookup, imported_modules: &Vec<String>) -> (r:
        ProbeReturn)
        ensures
            r == ProbeReturn::Matched,
            final(self).spec_context() == if old(self).entry_point == ExfiltrationEntryPoint::Literal {
                add_location(
                    old(self).spec_context(),
                    str_or_empty(node.spec_get_str("value"@)),
                    spec_array_location(spec_node_location(*node)),
                )
            } else {
                match spec_sensitive_call(*node, traced@, view_strings(imported_modules@)) {
                    Some((member, location)) => add_location(
                        old(self).spec_context(),
                        member,
                        spec_array_location(location),
                    ),
                    None => old(self).spec_context(),
                }
            },
    {
        match self.entry_point {
            ExfiltrationEntryPoint::Default => self.sensitive_methods_handler(node, traced, imported_modules),
            ExfiltrationEntryPoint::Literal => self.sensitive_literal_handler(node),
        }
    }

    /// An import that the tracer reported: in aggressive mode, the first
    /// import of `os` or `dns` is recorded where it stands.
    pub fn on_import(&mut self, sensitivity: Sensitivity, module_name: &str, location: Option<SourceLocation>)
        ensures
            final(self).spec_context() == if sensitivity == Sensitivity::Aggressive && is_sensitive_module(
                module_name@,
            ) && key_index(old(self).spec_context(), module_name@) is None {
                old(self).spec_context().push((module_name@, seq![spec_array_location(location)]))
            } else {
                old(self).spec_context()
            },
            final(self).entry_point == old(self).entry_point,
    {
        if sensitivity != Sensitivity::Aggressive {
            return;
        }
        if !(str_eq(module_name, "os") || str_eq(module_name, "dns")) {
            return;
        }
        if location_map_contains_key(&self.context, module_name) {
            return;
        }
        location_map_push(&mut self.context, to_string(module_name), to_array_location(location));
    }

    /// The `data-exfiltration` warning once the walk is over: the names seen,
    /// joined by `, `, with all their locations; none when nothing was seen.
    pub fn finalize(&self) -> (r: Option<(String, Vec<SourceArrayLocation>)>)
        ensures
            self.spec_context().len() == 0 ==> r is None,
            self.spec_context().len() > 0 ==> (r is Some && (r->0).0@ == join_seq(
                context_keys(self.spec_context()),
                ", "@,
            ) && (r->0).1@ == context_locations(self.spec_context())),
    {
        let n = location_map_len(&self.context);
        if n == 0 {
            return None;
        }
        let ghost entries = self.spec_context();
        let mut keys: Vec<String> = Vec::new();
        let mut locations: Vec<SourceArrayLocation> = Vec::new();
        let mut i: usize = 0;
        while i < n
            invariant
                0 <= i <= n,
                n == entries.len(),
                entries == self.spec_context(),
                keys@.len() == i,
                forall|j: int| 0 <= j < i ==> #[trigger] keys@[j]@ == entries[j].0,
                locations@ == context_locations(entries.take(i as int)),
            decreases n - i,
        {
            let (key, locs) = location_map_get_index(&self.context, i).unwrap();
            keys.push(to_string(key.as_str()));
            let mut j: usize = 0;
            let ghost before = locations@;
            while j < locs.len()
                invariant
                    0 <= j <= locs@.len(),
                    locations@ == before + locs@.take(j as int),
                decreases locs.len() - j,
            {
                locations.push(locs[j]);
                assert(locations@ =~= before + locs@.take(j + 1));
                j = j + 1;
            }
            assert(locs@.take(locs@.len() as int) =~= locs@);
            assert(entries.take(i + 1).drop_last() =~= entries.take(i as int));
            i = i + 1;
        }
        assert(entries.take(n as int) =~= entries);
        assert(view_strings(keys@) =~= context_keys(entries));
        Some((crate::text::join(&keys, ", "), locations))
    }
}

} // verus!
