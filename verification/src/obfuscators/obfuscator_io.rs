//! obfuscator.io: prefixed identifiers together with one of its patterns.

use vstd::prelude::*;

use crate::collections::{count_entries, count_map_get, key_index};
use crate::deobfuscator::{Deobfuscator, ObfuscatedCounters};

verus! {

/// How many member expressions were not computed (`a.b`).
pub open spec fn uncomputed_members(counters: ObfuscatedCounters) -> u32 {
    match key_index(count_entries(counters.member_expression), "false"@) {
        Some(i) => count_entries(counters.member_expression)[i].1,
        None => 0,
    }
}

/// No plain member access, some double unary expressions, prefixed
/// identifiers, and one of the generator's patterns.
pub open spec fn spec_is_obfuscator_io(deobfuscator: Deobfuscator, counters: ObfuscatedCounters) -> bool {
    &&& uncomputed_members(counters) == 0
    &&& counters.double_unary_expression != 0
    &&& deobfuscator.has_prefixed_identifiers
    &&& (counters.double_unary_expression > 0 || deobfuscator.deep_binary_expression > 0
        || deobfuscator.encoded_array_value > 0 || deobfuscator.has_dictionary_string)
}

pub fn verify(deobfuscator: &Deobfuscator, counters: &ObfuscatedCounters) -> (r: bool)
    ensures
        r == spec_is_obfuscator_io(*deobfuscator, *counters),
{
    let uncomputed: u32 = match count_map_get(&counters.member_expression, "false") {
        Some(n) => n,
        None => 0,
    };
    if uncomputed > 0 || counters.double_unary_expression == 0 {
        return false;
    }
    let has_some_patterns = counters.double_unary_expression > 0
        || deobfuscator.deep_binary_expression > 0 || deobfuscator.encoded_array_value > 0
        || deobfuscator.has_dictionary_string;
    deobfuscator.has_prefixed_identifiers && has_some_patterns
}

} // verus!
