//! The identifiers and node counts from which obfuscation is recognised,
//! and the state gathered while a tree is walked.

use vstd::prelude::*;

use indexmap::IndexMap;
use indexmap::IndexSet;

use crate::collections::{name_set_items, name_set_new};
use crate::json::JsonValue;

verus! {

/// An identifier met while walking a tree, with the kind of node that
/// declares it.
pub struct ObfuscatedIdentifier {
    pub name: String,
    /// ESTree node type context (e.g. "Property", "VariableDeclarator").
    pub node_type: String,
}

/// How many nodes of each kind a tree holds.
pub struct ObfuscatedCounters {
    pub variable_declarator: u32,
    pub function_declaration: u32,
    pub assignment_expression: u32,
    pub property: u32,
    pub double_unary_expression: u32,
    /// Member expressions by the text of their `computed` flag.
    pub member_expression: IndexMap<String, u32>,
}

/// What the walk of a tree gathers for recognising obfuscators.
pub struct Deobfuscator {
    pub morse_literals: IndexSet<String>,
    pub literal_scores: Vec<u32>,
    pub encoded_array_value: u32,
    pub identifiers: Vec<ObfuscatedIdentifier>,
    pub deep_binary_expression: u32,
    pub double_unary_array: u32,
    pub has_dictionary_string: bool,
    pub has_prefixed_identifiers: bool,
}

impl Deobfuscator {
    /// Nothing gathered yet.
    pub open spec fn is_empty(&self) -> bool {
        &&& name_set_items(self.morse_literals) == Seq::<Seq<char>>::empty()
        &&& self.literal_scores@ == Seq::<u32>::empty()
        &&& self.encoded_array_value == 0
        &&& self.identifiers@.len() == 0
        &&& self.deep_binary_expression == 0
        &&& self.double_unary_array == 0
        &&& !self.has_dictionary_string
        &&& !self.has_prefixed_identifiers
    }

    pub fn new() -> (r: Deobfuscator)
        ensures
            r.is_empty(),
    {
        Deobfuscator {
            morse_literals: name_set_new(),
            literal_scores: Vec::new(),
            encoded_array_value: 0,
            identifiers: Vec::new(),
            deep_binary_expression: 0,
            double_unary_array: 0,
            has_dictionary_string: false,
            has_prefixed_identifiers: false,
        }
    }

    /// Looks at a string literal of the tree; no string changes the state
    /// yet.
    pub fn analyze_string(&mut self, s: &str)
        ensures
            *final(self) == *old(self),
    {
    }

    /// Looks at a node of the tree; no node changes the state yet.
    pub fn walk(&mut self, node: &JsonValue)
        ensures
            *final(self) == *old(self),
    {
    }

    /// The counters gathered, as JSON: none are gathered yet, so `null`.
    pub fn aggregate_counters(&self) -> (r: JsonValue)
        ensures
            r is Null,
    {
        JsonValue::Null
    }

    /// The name of the obfuscator the source was produced by, if one is
    /// recognised: none is, yet.
    pub fn assert_obfuscation(&self) -> (r: Option<String>)
        ensures
            r is None,
    {
        None
    }
}

impl Default for Deobfuscator {
    fn default() -> (r: Deobfuscator)
        ensures
            r.is_empty(),
    {
        Deobfuscator::new()
    }
}

} // verus!
