//! Counting the nodes of one type, and of each value of one of their
//! properties.

use vstd::prelude::*;

use indexmap::IndexMap;

use crate::collections::{count_entries, count_map_get, count_map_insert, count_map_new, key_index};
use crate::estree::literal::{js_string, spec_js_string};
use crate::estree::types::{is_node, node_type, spec_is_node, spec_node_type};
use crate::json::JsonValue;
use crate::text::{chars_of, string_from, string_from_range, to_string};

verus! {

/// An ASCII letter.
pub open spec fn is_ascii_alpha(c: char) -> bool {
    ('a' <= c && c <= 'z') || ('A' <= c && c <= 'Z')
}

/// How many ASCII letters the text starts with.
pub open spec fn alpha_run(s: Seq<char>) -> nat
    decreases s.len(),
{
    if s.len() > 0 && is_ascii_alpha(s[0]) {
        1 + alpha_run(s.drop_first())
    } else {
        0
    }
}

/// The property named by what follows the type: `[name]`, the name being
/// one or more ASCII letters.
pub open spec fn spec_lookup_of(rest: Seq<char>) -> Option<Seq<char>> {
    if rest.len() >= 2 && rest[0] == '[' && rest.last() == ']' {
        let inner = rest.subrange(1, rest.len() - 1);
        if inner.len() > 0 && forall|i: int| 0 <= i < inner.len() ==> is_ascii_alpha(#[trigger] inner[i]) {
            Some(inner)
        } else {
            None
        }
    } else {
        None
    }
}

/// The counts after one more node whose property gave `key`.
pub open spec fn count_one(entries: Seq<(Seq<char>, u32)>, key: Seq<char>) -> Seq<(Seq<char>, u32)> {
    match key_index(entries, key) {
        Some(i) => entries.update(i, (key, (entries[i].1 + 1) as u32)),
        None => entries.push((key, 1u32)),
    }
}

/// The default filter: every node passes.
pub fn noop(node: &JsonValue) -> (r: bool)
    ensures
        r,
{
    true
}

/// Options of a counter: the name it reports under (default: the type).
pub struct NodeCounterOptions {
    pub name: Option<String>,
}

/// Counts the nodes of one type that pass a filter, and, for a
/// `Type[property]` expression, how often each value of the property occurs.
pub struct NodeCounter {
    pub node_type: String,
    pub name: String,
    pub lookup: Option<String>,
    /// The number of nodes counted (read it through `count`).
    pub count: u32,
    /// The count of each property value (read it through `properties`).
    pub properties: IndexMap<String, u32>,
}

impl NodeCounter {
    /// The number of nodes counted.
    pub open spec fn spec_count(&self) -> u32 {
        self.count
    }

    /// The count of each property value, in first-seen order.
    pub open spec fn spec_properties(&self) -> Seq<(Seq<char>, u32)> {
        count_entries(self.properties)
    }

    /// No property value was counted more often than nodes were.
    pub open spec fn wf(&self) -> bool {
        forall|i: int|
            0 <= i < self.spec_properties().len() ==> #[trigger] self.spec_properties()[i].1
                <= self.spec_count()
    }

    /// A counter for a type expression `Type` or `Type[property]`, which
    /// must start with an ASCII letter.
    pub fn new(type_expr: &str) -> (r: NodeCounter)
        requires
            alpha_run(type_expr@) > 0,
        ensures
            r.wf(),
            r.node_type@ == type_expr@.take(alpha_run(type_expr@) as int),
            r.name@ == r.node_type@,
            opt_string_view(r.lookup) == spec_lookup_of(
                type_expr@.skip(alpha_run(type_expr@) as int),
            ),
            r.spec_count() == 0,
            r.spec_properties() == Seq::<(Seq<char>, u32)>::empty(),
    {
        NodeCounter::with_options(type_expr, NodeCounterOptions { name: None })
    }

    /// A counter for a type expression, with options.
    pub fn with_options(type_expr: &str, options: NodeCounterOptions) -> (r: NodeCounter)
        requires
            alpha_run(type_expr@) > 0,
        ensures
            r.wf(),
            r.node_type@ == type_expr@.take(alpha_run(type_expr@) as int),
            r.name@ == match options.name {
                Some(n) => n@,
                None => r.node_type@,
            },
            opt_string_view(r.lookup) == spec_lookup_of(
                type_expr@.skip(alpha_run(type_expr@) as int),
            ),
            r.spec_count() == 0,
            r.spec_properties() == Seq::<(Seq<char>, u32)>::empty(),
    {
        let chars = chars_of(type_expr);
        let n = chars.len();
        let mut k: usize = 0;
        assert(type_expr@.skip(0) =~= type_expr@);
        while k < n && is_alpha_char(chars[k])
            invariant
                chars@ == type_expr@,
                n == chars@.len(),
                0 <= k <= n,
                alpha_run(type_expr@) == k + alpha_run(type_expr@.skip(k as int)),
            decreases n - k,
        {
            assert(type_expr@.skip(k as int).drop_first() =~= type_expr@.skip(k + 1));
            k = k + 1;
        }
        assert(alpha_run(type_expr@.skip(k as int)) == 0);
        let node_type = string_from_range(&chars, 0, k);
        assert(type_expr@.subrange(0, k as int) =~= type_expr@.take(k as int));
        let lookup = lookup_of(&chars, k);
        let name = match options.name {
            Some(name) => name,
            None => to_string(node_type.as_str()),
        };
        NodeCounter { node_type, name, lookup, count: 0, properties: count_map_new() }
    }

    /// The number of nodes counted.
    pub fn count(&self) -> (r: u32)
        ensures
            r == self.spec_count(),
    {
        self.count
    }

    /// The count of each property value.
    pub fn properties(&self) -> (r: &IndexMap<String, u32>)
        ensures
            count_entries(*r) == self.spec_properties(),
    {
        &self.properties
    }

    /// Counts a node when it is one of the counter's type and `passes_filter`
    /// (the filter's verdict on it) holds; with a property to look up, also
    /// counts the value of that property, `String(value)`. Returns whether
    /// the node counted with its property found (for a counter without a
    /// property: whether it counted).
    pub fn walk(&mut self, node: &JsonValue, passes_filter: bool) -> (r: bool)
        requires
            old(self).wf(),
            old(self).spec_count() < u32::MAX,
        ensures
            final(self).wf(),
            final(self).node_type == old(self).node_type,
            final(self).name == old(self).name,
            final(self).lookup == old(self).lookup,
            ({
                let counted = spec_is_node(*node) && spec_node_type(*node) == Some(old(self).node_type@)
                    && passes_filter;
                if !counted {
                    &&& !r
                    &&& final(self).spec_count() == old(self).spec_count()
                    &&& final(self).spec_properties() == old(self).spec_properties()
                } else {
                    &&& final(self).spec_count() == old(self).spec_count() + 1
                    &&& match old(self).lookup {
                        None => r && final(self).spec_properties() == old(self).spec_properties(),
                        Some(l) => match node.spec_get(l@) {
                            Some(v) => r && final(self).spec_properties() == count_one(
                                old(self).spec_properties(),
                                spec_js_string(v),
                            ),
                            None => !r && final(self).spec_properties() == old(self).spec_properties(),
                        },
                    }
                }
            }),
    {
        let is_type = match node_type(node) {
            Some(t) => crate::text::str_eq(t, self.node_type.as_str()),
            None => false,
        };
        if !is_node(node) || !is_type || !passes_filter {
            return false;
        }
        self.count = self.count + 1;
        assert forall|i: int| 0 <= i < self.spec_properties().len() implies #[trigger] self.spec_properties()[i].1
            <= self.count by {
            assert(old(self).spec_properties()[i].1 <= old(self).count);
        }
        match &self.lookup {
            None => true,
            Some(lookup) => match node.get(lookup.as_str()) {
                Some(key_value) => {
                    let key = js_string(key_value);
                    let ghost before = self.spec_properties();
                    proof {
                        crate::collections::lemma_key_index(before, key@);
                    }
                    let current: u32 = match count_map_get(&self.properties, key.as_str()) {
                        Some(c) => c,
                        None => 0,
                    };
                    proof {
                        assert(before == old(self).spec_properties());
                        if let Some(i) = key_index(before, key@) {
                            assert(old(self).spec_properties()[i].1 <= old(self).count);
                        }
                    }
                    let ghost key_view = key@;
                    let _ = count_map_insert(&mut self.properties, key, current + 1);
                    proof {
                        let after = self.spec_properties();
                        assert(after == count_one(before, key_view));
                        assert forall|i: int| 0 <= i < after.len() implies #[trigger] after[i].1
                            <= self.count by {
                            if i < before.len() {
                                assert(old(self).spec_properties()[i].1 <= old(self).count);
                            }
                        }
                    }
                    true
                },
                None => false,
            },
        }
    }
}

/// The view of an optional string.
pub open spec fn opt_string_view(o: Option<String>) -> Option<Seq<char>> {
    match o {
        Some(s) => Some(s@),
        None => None,
    }
}

/// Whether a character is an ASCII letter.
fn is_alpha_char(c: char) -> (r: bool)
    ensures
        r == is_ascii_alpha(c),
{
    ('a' <= c && c <= 'z') || ('A' <= c && c <= 'Z')
}

/// The property named by the characters from `k` on.
fn lookup_of(chars: &Vec<char>, k: usize) -> (r: Option<String>)
    requires
        k <= chars@.len(),
    ensures
        opt_string_view(r) == spec_lookup_of(chars@.skip(k as int)),
{
    let n = chars.len();
    let ghost rest = chars@.skip(k as int);
    if n - k < 2 || chars[k] != '[' || chars[n - 1] != ']' {
        return None;
    }
    let ghost inner = rest.subrange(1, rest.len() - 1);
    if n - k == 2 {
        return None;
    }
    let mut i: usize = k + 1;
    while i < n - 1
        invariant
            k + 1 <= i <= n - 1,
            n == chars@.len(),
            n - k >= 3,
            rest == chars@.skip(k as int),
            inner == rest.subrange(1, rest.len() - 1),
            forall|j: int| 0 <= j < i - k - 1 ==> is_ascii_alpha(#[trigger] inner[j]),
        decreases n - 1 - i,
    {
        assert(inner[i - k - 1] == chars@[i as int]);
        if !is_alpha_char(chars[i]) {
            return None;
        }
        i = i + 1;
    }
    let s = string_from_range(chars, k + 1, n - 1);
    assert(s@ =~= inner);
    Some(s)
}

} // verus!
